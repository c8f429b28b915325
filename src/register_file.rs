use vstd::prelude::*;
use crate::error::Error;
use crate::interface::{Request, SensorInterface, Transaction, MAX_BLOCK_LEN};

verus! {

/// Number of registers in the 8-bit register map.
pub const REGISTER_COUNT: usize = 256;

/// The `len` registers of `regs` starting at `reg`; the address wraps from
/// `0xFF` back to `0x00`.
pub open spec fn block_of(regs: Seq<u8>, reg: u8, len: nat) -> Seq<u8> {
    Seq::new(len, |i: int| regs[(reg + i) % 256])
}

/// An in-memory chip: a transport whose registers hold what was last written
/// to them. Every transaction succeeds.
pub struct RegisterFile {
    regs: [u8; 256],
    log: Ghost<Seq<Transaction<Error<(), ()>>>>,
}

impl RegisterFile {
    /// Contents of the register map, indexed by address.
    pub closed spec fn registers(&self) -> Seq<u8> {
        self.regs@
    }

    /// The register map has one byte for each 8-bit address.
    pub proof fn lemma_register_count(&self)
        ensures
            self.registers().len() == REGISTER_COUNT,
    {
    }

    /// A register map with every register zero, and no transaction yet.
    pub fn new() -> (r: Self)
        ensures
            r.registers() == Seq::new(256, |i: int| 0u8),
            r.transactions() == Seq::<Transaction<Error<(), ()>>>::empty(),
    {
        let regs: [u8; 256] = [0u8; 256];
        proof {
            assert(regs@ =~= Seq::new(256, |i: int| 0u8));
        }
        Self { regs, log: Ghost(Seq::empty()) }
    }

    /// Set a register directly, as the chip itself would, without a transaction.
    pub fn preset(&mut self, reg: u8, val: u8)
        ensures
            final(self).registers() == old(self).registers().update(reg as int, val),
            final(self).transactions() == old(self).transactions(),
    {
        self.regs[reg as usize] = val;
    }

    /// Current value of a register.
    pub fn register(&self, reg: u8) -> (r: u8)
        ensures
            r == self.registers()[reg as int],
    {
        self.regs[reg as usize]
    }
}

impl SensorInterface for RegisterFile {
    type CommError = ();

    type PinError = ();

    closed spec fn transactions(&self) -> Seq<Transaction<Error<(), ()>>> {
        self.log@
    }

    fn read_block(&mut self, reg: u8, recv_buf: &mut [u8]) -> (r: Result<(), Error<(), ()>>)
        ensures
            r is Ok,
            final(recv_buf)@ == block_of(old(self).registers(), reg, old(recv_buf)@.len()),
            final(self).registers() == old(self).registers(),
    {
        let len = recv_buf.len();
        let mut i: usize = 0;
        while i < len
            invariant
                len == recv_buf@.len(),
                len == old(recv_buf)@.len(),
                len <= MAX_BLOCK_LEN,
                i <= len,
                self.regs@.len() == REGISTER_COUNT,
                self.regs == old(self).regs,
                forall|j: int| 0 <= j < i ==> recv_buf@[j] == self.regs@[(reg + j) % 256],
            decreases len - i,
        {
            let addr: usize = (reg as usize + i) % REGISTER_COUNT;
            recv_buf[i] = self.regs[addr];
            i = i + 1;
        }
        proof {
            assert(recv_buf@ =~= block_of(self.regs@, reg, len as nat));
        }
        self.log = Ghost(
            self.log@.push(
                Transaction {
                    request: Request::Read { reg, len: len as nat },
                    reply: recv_buf@,
                    result: Ok(()),
                },
            ),
        );
        Ok(())
    }

    fn write_reg(&mut self, reg: u8, val: u8) -> (r: Result<(), Error<(), ()>>)
        ensures
            r is Ok,
            final(self).registers() == old(self).registers().update(reg as int, val),
    {
        self.regs[reg as usize] = val;
        self.log = Ghost(
            self.log@.push(
                Transaction { request: Request::Write { reg, val }, reply: Seq::empty(), result: Ok(()) },
            ),
        );
        Ok(())
    }
}

/// Writing a register and then reading the one-register block at the same
/// address gives back the byte written.
pub proof fn lemma_write_then_read(regs: Seq<u8>, reg: u8, val: u8)
    requires
        regs.len() == 256,
    ensures
        block_of(regs.update(reg as int, val), reg, 1) == seq![val],
{
    assert(block_of(regs.update(reg as int, val), reg, 1) =~= seq![val]);
}


} // verus!
