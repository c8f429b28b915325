use vstd::prelude::*;

verus! {

// Each trait below keeps a ghost log of the calls made on it. For a type
// parameter the log is abstract, and each method's contract says exactly what
// one call appends. Implementations outside Verus inherit the empty default,
// which only proofs would read; the contracts are what they promise.

/// One call on an I2C bus, with what the bus returned.
pub enum I2cOp<E> {
    /// `write(address, bytes)`.
    Write { address: u8, bytes: Seq<u8>, result: Result<(), E> },
    /// `write_read(address, bytes, buffer)`; `received` is the buffer afterwards.
    WriteRead { address: u8, bytes: Seq<u8>, received: Seq<u8>, result: Result<(), E> },
}

/// A blocking I2C bus master.
pub trait I2cBus {
    /// Bus error payload.
    type Error;

    /// Every call made on the bus, oldest first.
    closed spec fn i2c_log(&self) -> Seq<I2cOp<Self::Error>> {
        Seq::empty()
    }

    /// Send `bytes` to the device at the 7-bit `address`.
    fn write(&mut self, address: u8, bytes: &[u8]) -> (r: Result<(), Self::Error>)
        ensures
            final(self).i2c_log() == old(self).i2c_log().push(
                I2cOp::Write { address, bytes: bytes@, result: r },
            ),
    ;

    /// Send `bytes` to the device at `address`, then fill `buffer` from it,
    /// in a single transaction.
    fn write_read(&mut self, address: u8, bytes: &[u8], buffer: &mut [u8]) -> (r: Result<
        (),
        Self::Error,
    >)
        ensures
            final(buffer)@.len() == old(buffer)@.len(),
            final(self).i2c_log() == old(self).i2c_log().push(
                I2cOp::WriteRead { address, bytes: bytes@, received: final(buffer)@, result: r },
            ),
    ;
}

/// One call on an SPI device, with what it returned.
pub enum SpiEvent<E, P> {
    /// `set_low()` on the chip-select line.
    Low(Result<(), P>),
    /// `write(words)` on the bus.
    Write { words: Seq<u8>, result: Result<(), E> },
    /// `transfer(words)` on the bus: the words sent, and the words received.
    Transfer { words: Seq<u8>, result: Result<Seq<u8>, E> },
    /// `set_high()` on the chip-select line.
    High(Result<(), P>),
}

/// A blocking full-duplex SPI bus together with the chip-select line of one
/// device on it. Bus and line calls go into one log, in the order made.
pub trait SpiDevice {
    /// Bus error payload.
    type BusError;

    /// Chip-select error payload.
    type PinError;

    /// Every call made on the bus or the line, oldest first.
    closed spec fn spi_log(&self) -> Seq<SpiEvent<Self::BusError, Self::PinError>> {
        Seq::empty()
    }

    /// Drive chip-select low, selecting the device.
    fn set_low(&mut self) -> (r: Result<(), Self::PinError>)
        ensures
            final(self).spi_log() == old(self).spi_log().push(SpiEvent::Low(r)),
    ;

    /// Drive chip-select high, releasing the device.
    fn set_high(&mut self) -> (r: Result<(), Self::PinError>)
        ensures
            final(self).spi_log() == old(self).spi_log().push(SpiEvent::High(r)),
    ;

    /// Send `words`, ignoring what comes back.
    fn write(&mut self, words: &[u8]) -> (r: Result<(), Self::BusError>)
        ensures
            final(self).spi_log() == old(self).spi_log().push(
                SpiEvent::Write { words: words@, result: r },
            ),
    ;

    /// Send `words` and return the words received meanwhile.
    fn transfer<'w>(&mut self, words: &'w mut [u8]) -> (r: Result<&'w [u8], Self::BusError>)
        ensures
            final(self).spi_log() == old(self).spi_log().push(
                SpiEvent::Transfer {
                    words: old(words)@,
                    result: match r {
                        Ok(rx) => Ok(rx@),
                        Err(e) => Err(e),
                    },
                },
            ),
    ;
}

/// A blocking delay.
pub trait Delay {
    /// Every pause taken, in milliseconds, oldest first.
    closed spec fn pauses(&self) -> Seq<u8> {
        Seq::empty()
    }

    /// Pause for `ms` milliseconds.
    fn delay_ms(&mut self, ms: u8)
        ensures
            final(self).pauses() == old(self).pauses().push(ms),
    ;
}

} // verus!
