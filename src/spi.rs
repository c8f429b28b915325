use vstd::prelude::*;
use crate::bus::{SpiDevice, SpiEvent};
use crate::error::Error;
use crate::interface::{Request, SensorInterface, Transaction, MAX_BLOCK_LEN};

verus! {

/// High address bit of a read.
pub const DIRECTION_READ: u8 = 0x80;

/// High address bit of a write.
pub const DIRECTION_WRITE: u8 = 0x00;

/// Address bit that makes the chip step through consecutive registers.
pub const MULTI_ADDRESS_INCREMENT: u8 = 0x40;

/// Frame of a block read: the address with the read and auto-increment
/// bits set, then one zero byte to clock in each register.
pub open spec fn read_frame(reg: u8, len: nat) -> Seq<u8> {
    seq![reg | DIRECTION_READ | MULTI_ADDRESS_INCREMENT] + Seq::new(len, |i: int| 0u8)
}

/// Frame of a register write: the address with the write bit, then the value.
pub open spec fn write_frame(reg: u8, val: u8) -> Seq<u8> {
    seq![reg | DIRECTION_WRITE, val]
}

/// The block carried by the received bytes `rx` of a read frame: the first
/// byte answers the address and is dropped; bytes `rx` lacks read as zero.
pub open spec fn read_reply(rx: Seq<u8>, len: nat) -> Seq<u8> {
    Seq::new(len, |i: int| if i + 1 < rx.len() { rx[i + 1] } else { 0u8 })
}

/// A block read clocks one byte more than the block: the address byte with
/// the read and auto-increment bits set, then zeros. When the bus hands back
/// a byte for each byte sent, the block is positions `1..=len` of it.
pub proof fn lemma_read_framing(reg: u8, len: nat, rx: Seq<u8>)
    ensures
        read_frame(reg, len).len() == len + 1,
        read_frame(reg, len)[0] == reg | 0xC0,
        forall|i: int| 1 <= i <= len ==> #[trigger] read_frame(reg, len)[i] == 0,
        rx.len() == len + 1 ==> read_reply(rx, len) == rx.subrange(1, len + 1int),
{
    assert((reg | 0x80u8 | 0x40u8) == (reg | 0xC0u8)) by (bit_vector);
    if rx.len() == len + 1 {
        assert(read_reply(rx, len) =~= rx.subrange(1, len + 1int));
    }
}

/// Builds the frame of a read of `len` registers from `reg`.
pub fn spi_read_frame(reg: u8, len: usize) -> (r: Vec<u8>)
    requires
        len <= MAX_BLOCK_LEN,
    ensures
        r@ == read_frame(reg, len as nat),
{
    let mut r: Vec<u8> = Vec::new();
    r.push(reg | DIRECTION_READ | MULTI_ADDRESS_INCREMENT);
    let mut i: usize = 0;
    while i < len
        invariant
            i <= len,
            r@ == seq![reg | DIRECTION_READ | MULTI_ADDRESS_INCREMENT] + Seq::new(i as nat, |j: int| 0u8),
        decreases len - i,
    {
        r.push(0);
        i = i + 1;
        proof {
            assert(r@ =~= seq![reg | DIRECTION_READ | MULTI_ADDRESS_INCREMENT] + Seq::new(
                i as nat,
                |j: int| 0u8,
            ));
        }
    }
    r
}

/// Builds the frame of a register write.
pub fn spi_write_frame(reg: u8, val: u8) -> (r: [u8; 2])
    ensures
        r@ == write_frame(reg, val),
{
    let r = [reg | DIRECTION_WRITE, val];
    proof {
        assert(r@ =~= write_frame(reg, val));
    }
    r
}

/// Copies the block of a read out of the received bytes `rx` into `out`.
pub fn copy_read_reply(rx: &[u8], out: &mut [u8])
    ensures
        final(out)@ == read_reply(rx@, old(out)@.len()),
{
    let len = out.len();
    let mut i: usize = 0;
    while i < len
        invariant
            len == out@.len(),
            len == old(out)@.len(),
            i <= len,
            forall|j: int| 0 <= j < i ==> out@[j] == read_reply(rx@, len as nat)[j],
        decreases len - i,
    {
        if i < rx.len() && rx.len() - i > 1 {
            out[i] = rx[i + 1];
        } else {
            out[i] = 0;
        }
        i = i + 1;
    }
    proof {
        assert(out@ =~= read_reply(rx@, len as nat));
    }
}

/// What an SPI transaction returns once the chip was selected: a release
/// error first, then a bus error, else success.
pub open spec fn spi_result<E, P>(bus: SpiEvent<E, P>, high: Result<(), P>) -> Result<(), Error<E, P>> {
    match high {
        Err(p) => Err(Error::Pin(p)),
        Ok(_) => match bus {
            SpiEvent::Write { result: Err(e), .. } => Err(Error::Comm(e)),
            SpiEvent::Transfer { result: Err(e), .. } => Err(Error::Comm(e)),
            _ => Ok(()),
        },
    }
}

/// The bus call sends `sent`, as a transfer if `transfer` holds, else as a write.
pub open spec fn sends<E, P>(bus: SpiEvent<E, P>, sent: Seq<u8>, transfer: bool) -> bool {
    match bus {
        SpiEvent::Write { words, .. } => !transfer && words == sent,
        SpiEvent::Transfer { words, .. } => transfer && words == sent,
        _ => false,
    }
}

/// The words a successful transfer received (empty for anything else).
pub open spec fn received<E, P>(bus: SpiEvent<E, P>) -> Seq<u8> {
    match bus {
        SpiEvent::Transfer { result: Ok(rx), .. } => rx,
        _ => Seq::empty(),
    }
}

/// One SPI transaction sending `sent`, from the device log before and after
/// it. Chip-select goes low first. If that fails, the pin error is returned
/// and nothing else happens. Otherwise exactly three calls follow in order:
/// the low, the one bus call that sends `sent`, and the high, whatever the
/// bus call returned; the result is `spi_result` of the last two.
pub open spec fn spi_transaction<E, P>(
    log0: Seq<SpiEvent<E, P>>,
    log1: Seq<SpiEvent<E, P>>,
    sent: Seq<u8>,
    transfer: bool,
    r: Result<(), Error<E, P>>,
) -> bool {
    let new = log1.skip(log0.len() as int);
    &&& log0.len() < log1.len()
    &&& log1.take(log0.len() as int) == log0
    &&& match new[0] {
        SpiEvent::Low(Err(p)) => new.len() == 1 && r == Err::<(), Error<E, P>>(Error::Pin(p)),
        SpiEvent::Low(Ok(_)) => {
            &&& new.len() == 3
            &&& sends(new[1], sent, transfer)
            &&& new[2] is High
            &&& r == spi_result(new[1], new[2]->High_0)
        },
        _ => false,
    }
}

/// Transport over a blocking SPI bus and the chip-select line of the chip.
/// Each transaction selects the chip, clocks one frame, and releases the chip
/// again whatever the bus did.
pub struct SpiInterface<DEV: SpiDevice> {
    device: DEV,
    log: Ghost<Seq<Transaction<Error<DEV::BusError, DEV::PinError>>>>,
}

impl<DEV: SpiDevice> SpiInterface<DEV> {
    /// Calls made on the bus and the chip-select line so far.
    pub closed spec fn device_log(&self) -> Seq<SpiEvent<DEV::BusError, DEV::PinError>> {
        self.device.spi_log()
    }

    /// Take ownership of the device's bus and chip-select line. Nothing is sent.
    pub fn new(device: DEV) -> (r: Self)
        ensures
            r.transactions() == Seq::<Transaction<Error<DEV::BusError, DEV::PinError>>>::empty(),
            r.device_log() == device.spi_log(),
    {
        Self { device, log: Ghost(Seq::empty()) }
    }
}

impl<DEV: SpiDevice> SensorInterface for SpiInterface<DEV> {
    type CommError = DEV::BusError;

    type PinError = DEV::PinError;

    closed spec fn transactions(&self) -> Seq<Transaction<Error<DEV::BusError, DEV::PinError>>> {
        self.log@
    }

    /// Select, transfer the read frame, release; the block is the reply
    /// without its first byte.
    fn read_block(&mut self, reg: u8, recv_buf: &mut [u8]) -> (r: Result<
        (),
        Error<DEV::BusError, DEV::PinError>,
    >)
        ensures
            spi_transaction(
                old(self).device_log(),
                final(self).device_log(),
                read_frame(reg, old(recv_buf)@.len()),
                true,
                r,
            ),
            r is Ok ==> final(recv_buf)@ == read_reply(
                received(final(self).device_log()[old(self).device_log().len() + 1int]),
                old(recv_buf)@.len(),
            ),
    {
        let ghost log0 = self.device.spi_log();
        let len = recv_buf.len();
        let low = self.device.set_low();
        let r = match low {
            Err(p) => Err(Error::Pin(p)),
            Ok(()) => {
                let mut frame = spi_read_frame(reg, len);
                let rc = self.device.transfer(frame.as_mut_slice());
                let high = self.device.set_high();
                match (rc, high) {
                    (_, Err(p)) => Err(Error::Pin(p)),
                    (Err(e), Ok(())) => Err(Error::Comm(e)),
                    (Ok(rx), Ok(())) => {
                        copy_read_reply(rx, recv_buf);
                        Ok(())
                    },
                }
            },
        };
        proof {
            let log1 = self.device.spi_log();
            assert(log1.take(log0.len() as int) =~= log0);
            assert(log1.skip(log0.len() as int)[0] == log1[log0.len() as int]);
            if low is Ok {
                assert(log1.skip(log0.len() as int) =~= seq![
                    log1[log0.len() as int],
                    log1[log0.len() + 1int],
                    log1[log0.len() + 2int],
                ]);
            }
        }
        self.log = Ghost(
            self.log@.push(
                Transaction {
                    request: Request::Read { reg, len: len as nat },
                    reply: recv_buf@,
                    result: r,
                },
            ),
        );
        r
    }

    /// Select, write the register frame, release.
    fn write_reg(&mut self, reg: u8, val: u8) -> (r: Result<(), Error<DEV::BusError, DEV::PinError>>)
        ensures
            spi_transaction(
                old(self).device_log(),
                final(self).device_log(),
                write_frame(reg, val),
                false,
                r,
            ),
    {
        let ghost log0 = self.device.spi_log();
        let low = self.device.set_low();
        let r = match low {
            Err(p) => Err(Error::Pin(p)),
            Ok(()) => {
                let block = spi_write_frame(reg, val);
                let rc = self.device.write(block.as_slice());
                let high = self.device.set_high();
                match (rc, high) {
                    (_, Err(p)) => Err(Error::Pin(p)),
                    (Err(e), Ok(())) => Err(Error::Comm(e)),
                    (Ok(()), Ok(())) => Ok(()),
                }
            },
        };
        proof {
            let log1 = self.device.spi_log();
            assert(log1.take(log0.len() as int) =~= log0);
            assert(log1.skip(log0.len() as int)[0] == log1[log0.len() as int]);
            if low is Ok {
                assert(log1.skip(log0.len() as int) =~= seq![
                    log1[log0.len() as int],
                    log1[log0.len() + 1int],
                    log1[log0.len() + 2int],
                ]);
            }
        }
        self.log = Ghost(
            self.log@.push(
                Transaction { request: Request::Write { reg, val }, reply: Seq::empty(), result: r },
            ),
        );
        r
    }
}

} // verus!
