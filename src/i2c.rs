use vstd::prelude::*;
use crate::bus::{I2cBus, I2cOp};
use crate::error::Error;
use crate::interface::{Request, SensorInterface, Transaction};

verus! {

/// Fixed 7-bit bus address of the chip.
pub const I2C_ADDRESS: u8 = 0x1E;

/// The first `len` bytes of `rx`, padded with zeros if it is shorter.
pub open spec fn fitted(rx: Seq<u8>, len: nat) -> Seq<u8> {
    Seq::new(len, |i: int| if i < rx.len() { rx[i] } else { 0u8 })
}

/// What the transport returns for a bus result: success, or the bus error as
/// a communication error.
pub open spec fn comm_result<E>(bus: Result<(), E>) -> Result<(), Error<E, ()>> {
    match bus {
        Ok(_) => Ok(()),
        Err(e) => Err(Error::Comm(e)),
    }
}

/// Transport over a blocking I2C bus: a write sends `[reg, val]`; a read
/// sends `[reg]` and receives the block in the same transaction.
pub struct I2cInterface<I2C: I2cBus> {
    i2c_port: I2C,
    log: Ghost<Seq<Transaction<Error<I2C::Error, ()>>>>,
}

impl<I2C: I2cBus> I2cInterface<I2C> {
    /// Calls made on the bus so far.
    pub closed spec fn bus_log(&self) -> Seq<I2cOp<I2C::Error>> {
        self.i2c_port.i2c_log()
    }

    /// Take ownership of the bus. No transaction is performed.
    pub fn new(i2c_port: I2C) -> (r: Self)
        ensures
            r.transactions() == Seq::<Transaction<Error<I2C::Error, ()>>>::empty(),
            r.bus_log() == i2c_port.i2c_log(),
    {
        Self { i2c_port, log: Ghost(Seq::empty()) }
    }
}

/// The bytes of a register write: the address, then the value.
pub fn i2c_write_frame(reg: u8, val: u8) -> (r: [u8; 2])
    ensures
        r@ == seq![reg, val],
{
    let r = [reg, val];
    proof {
        assert(r@ =~= seq![reg, val]);
    }
    r
}

/// Copy `rx` into `out`, position by position; positions `rx` lacks become zero.
pub fn copy_fitted(rx: &[u8], out: &mut [u8])
    ensures
        final(out)@ == fitted(rx@, old(out)@.len()),
{
    let len = out.len();
    let mut i: usize = 0;
    while i < len
        invariant
            len == out@.len(),
            len == old(out)@.len(),
            i <= len,
            forall|j: int| 0 <= j < i ==> out@[j] == fitted(rx@, len as nat)[j],
        decreases len - i,
    {
        if i < rx.len() {
            out[i] = rx[i];
        } else {
            out[i] = 0;
        }
        i = i + 1;
    }
    proof {
        assert(out@ =~= fitted(rx@, len as nat));
    }
}

impl<I2C: I2cBus> SensorInterface for I2cInterface<I2C> {
    type CommError = I2C::Error;

    type PinError = ();

    closed spec fn transactions(&self) -> Seq<Transaction<Error<I2C::Error, ()>>> {
        self.log@
    }

    /// One `write_read` of `[reg]` at the chip's address; the block is what it received.
    fn read_block(&mut self, reg: u8, recv_buf: &mut [u8]) -> (r: Result<(), Error<I2C::Error, ()>>)
        ensures
            final(self).bus_log().len() == old(self).bus_log().len() + 1,
            final(self).bus_log().drop_last() == old(self).bus_log(),
            final(self).bus_log().last() matches I2cOp::WriteRead { address, bytes, received, result }
                && address == I2C_ADDRESS && bytes == seq![reg] && received.len() == old(recv_buf)@.len() && r == comm_result(result) && (r is Ok ==> final(recv_buf)@ == received),
    {
        let ghost bus0 = self.i2c_port.i2c_log();
        let cmd_buf = [reg];
        let mut rx: Vec<u8> = vec![0u8; recv_buf.len()];
        let rc = self.i2c_port.write_read(I2C_ADDRESS, cmd_buf.as_slice(), rx.as_mut_slice());
        proof {
            assert(cmd_buf@ =~= seq![reg]);
            assert(self.i2c_port.i2c_log().drop_last() =~= bus0);
            assert(fitted(rx@, rx@.len()) =~= rx@);
        }
        let r = match rc {
            Ok(()) => {
                copy_fitted(rx.as_slice(), recv_buf);
                Ok(())
            },
            Err(e) => Err(Error::Comm(e)),
        };
        self.log = Ghost(
            self.log@.push(
                Transaction {
                    request: Request::Read { reg, len: old(recv_buf)@.len() },
                    reply: recv_buf@,
                    result: r,
                },
            ),
        );
        r
    }

    /// One `write` of `[reg, val]` at the chip's address.
    fn write_reg(&mut self, reg: u8, val: u8) -> (r: Result<(), Error<I2C::Error, ()>>)
        ensures
            final(self).bus_log().len() == old(self).bus_log().len() + 1,
            final(self).bus_log().drop_last() == old(self).bus_log(),
            final(self).bus_log().last() matches I2cOp::Write { address, bytes, result }
                && address == I2C_ADDRESS && bytes == seq![reg, val] && r == comm_result(result),
    {
        let ghost bus0 = self.i2c_port.i2c_log();
        let write_buf = i2c_write_frame(reg, val);
        let rc = self.i2c_port.write(I2C_ADDRESS, write_buf.as_slice());
        proof {
            assert(self.i2c_port.i2c_log().drop_last() =~= bus0);
        }
        let r = match rc {
            Ok(()) => Ok(()),
            Err(e) => Err(Error::Comm(e)),
        };
        self.log = Ghost(
            self.log@.push(
                Transaction { request: Request::Write { reg, val }, reply: Seq::empty(), result: r },
            ),
        );
        r
    }
}

} // verus!
