use vstd::prelude::*;
use crate::error::{is_bus_error, Error};

verus! {

/// Largest block a single read may ask for: one address byte and the block
/// together fit a 32-byte transfer.
pub const MAX_BLOCK_LEN: usize = 31;

/// A register-level request, as the driver issues it.
pub enum Request {
    /// Write `val` to register `reg`.
    Write { reg: u8, val: u8 },
    /// Read `len` consecutive registers starting at `reg`.
    Read { reg: u8, len: nat },
}

/// One transaction a transport performed: the request, the bytes it
/// delivered (empty for a write), and what the transport returned.
pub struct Transaction<E> {
    pub request: Request,
    pub reply: Seq<u8>,
    pub result: Result<(), E>,
}

impl<E> Transaction<E> {
    /// The transport reported success.
    pub open spec fn done(self) -> bool {
        self.result is Ok
    }

    /// The error the transport reported.
    pub open spec fn error(self) -> E {
        self.result->Err_0
    }
}

/// A method of communicating with the device.
///
/// Each call performs one bus transaction and appends it, with its result, to
/// the ghost history `transactions`. The only errors a transport reports are
/// bus errors, and a failed read leaves the buffer as it was.
pub trait SensorInterface {
    /// Payload of a bus communication error.
    type CommError;

    /// Payload of a chip-select error.
    type PinError;

    /// Every transaction performed over this interface, oldest first.
    spec fn transactions(&self) -> Seq<Transaction<Error<Self::CommError, Self::PinError>>>;

    /// Read a block of `recv_buf.len()` registers starting at `reg`.
    fn read_block(&mut self, reg: u8, recv_buf: &mut [u8]) -> (r: Result<
        (),
        Error<Self::CommError, Self::PinError>,
    >)
        requires
            old(recv_buf)@.len() <= MAX_BLOCK_LEN,
        ensures
            final(recv_buf)@.len() == old(recv_buf)@.len(),
            final(self).transactions() == old(self).transactions().push(
                (Transaction {
                    request: Request::Read { reg, len: old(recv_buf)@.len() },
                    reply: final(recv_buf)@,
                    result: r,
                }),
            ),
            r is Ok || is_bus_error(r),
            r is Err ==> final(recv_buf)@ == old(recv_buf)@,
    ;

    /// Write a value to a register.
    fn write_reg(&mut self, reg: u8, val: u8) -> (r: Result<(), Error<Self::CommError, Self::PinError>>)
        ensures
            final(self).transactions() == old(self).transactions().push(
                (Transaction { request: Request::Write { reg, val }, reply: Seq::empty(), result: r }),
            ),
            r is Ok || is_bus_error(r),
    ;
}

/// The transactions in `after` beyond the history `before`, provided
/// `extends(after, before)`.
pub open spec fn issued<E>(before: Seq<Transaction<E>>, after: Seq<Transaction<E>>) -> Seq<Transaction<E>> {
    after.skip(before.len() as int)
}

/// `after` is `before` with transactions appended.
pub open spec fn extends<E>(after: Seq<Transaction<E>>, before: Seq<Transaction<E>>) -> bool {
    before.len() <= after.len() && after.take(before.len() as int) == before
}

/// `run` issued the requests of `script` in order, stopping no later than
/// its end, and every transaction but the last one succeeded.
pub open spec fn follows<E>(run: Seq<Transaction<E>>, script: Seq<Request>) -> bool {
    &&& run.len() <= script.len()
    &&& forall|i: int| 0 <= i < run.len() ==> #[trigger] run[i].request == script[i]
    &&& forall|i: int| 0 <= i < run.len() - 1 ==> #[trigger] run[i].done()
}

/// The last transaction of `run` failed on the bus.
pub open spec fn failed<E>(run: Seq<Transaction<E>>) -> bool {
    run.len() > 0 && !run.last().done()
}

/// `run` issued all of `script`, and every transaction succeeded.
pub open spec fn completed<E>(run: Seq<Transaction<E>>, script: Seq<Request>) -> bool {
    follows(run, script) && run.len() == script.len() && !failed(run)
}

/// `run` stopped right after its `k`-th transaction, which succeeded.
pub open spec fn stopped_at<E>(run: Seq<Transaction<E>>, k: int) -> bool {
    run.len() == k + 1 && run[k].done()
}

/// Running `s1` to completion and then following `s2` follows `s1 + s2`.
pub proof fn lemma_follows_concat<E>(
    r1: Seq<Transaction<E>>,
    s1: Seq<Request>,
    r2: Seq<Transaction<E>>,
    s2: Seq<Request>,
)
    requires
        completed(r1, s1),
        follows(r2, s2),
    ensures
        follows(r1 + r2, s1 + s2),
        failed(r1 + r2) == failed(r2),
        completed(r1 + r2, s1 + s2) == completed(r2, s2),
        r2.len() == 0 ==> r1 + r2 == r1,
        r2.len() > 0 ==> (r1 + r2).last() == r2.last(),
{
    let r = r1 + r2;
    let s = s1 + s2;
    assert forall|i: int| 0 <= i < r.len() implies #[trigger] r[i].request == s[i] by {
        if i >= r1.len() {
            assert(r[i] == r2[i - r1.len()]);
        }
    }
    assert forall|i: int| 0 <= i < r.len() - 1 implies #[trigger] r[i].done() by {
        if i >= r1.len() {
            assert(r[i] == r2[i - r1.len()]);
        }
    }
    if r2.len() == 0 {
        assert(r =~= r1);
    }
}

/// Following a script also follows every script that it is a prefix of.
pub proof fn lemma_follows_prefix<E>(run: Seq<Transaction<E>>, s1: Seq<Request>, s: Seq<Request>)
    requires
        follows(run, s1),
        s1.len() <= s.len(),
        forall|i: int| 0 <= i < s1.len() ==> #[trigger] s1[i] == s[i],
    ensures
        follows(run, s),
{
    assert forall|i: int| 0 <= i < run.len() implies #[trigger] run[i].request == s[i] by {
        assert(s1[i] == s[i]);
    }
}

/// Histories that extend one another: what the whole span issued is what the
/// first part issued followed by what the second part issued.
pub proof fn lemma_issued_concat<E>(t0: Seq<Transaction<E>>, t1: Seq<Transaction<E>>, t2: Seq<Transaction<E>>)
    requires
        extends(t1, t0),
        extends(t2, t1),
    ensures
        extends(t2, t0),
        issued(t0, t2) == issued(t0, t1) + issued(t1, t2),
        t1 == t0 + issued(t0, t1),
{
    assert(t2.take(t0.len() as int) =~= t1.take(t0.len() as int));
    assert(issued(t0, t2) =~= issued(t0, t1) + issued(t1, t2));
    assert(t1 =~= t0 + issued(t0, t1));
}

} // verus!
