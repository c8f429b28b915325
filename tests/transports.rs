use std::cell::RefCell;
use std::rc::Rc;

use hmc5983::{Error, I2cBus, I2cInterface, SensorInterface, SpiDevice, SpiInterface};

#[derive(Debug, Clone, PartialEq)]
struct Fault(&'static str);

#[derive(Default)]
struct I2cLog {
    writes: Vec<(u8, Vec<u8>)>,
    write_reads: Vec<(u8, Vec<u8>, usize)>,
    reply: Vec<u8>,
    fail: bool,
}

struct MockI2c(Rc<RefCell<I2cLog>>);

impl I2cBus for MockI2c {
    type Error = Fault;

    fn write(&mut self, address: u8, bytes: &[u8]) -> Result<(), Fault> {
        let mut log = self.0.borrow_mut();
        log.writes.push((address, bytes.to_vec()));
        if log.fail {
            return Err(Fault("i2c"));
        }
        Ok(())
    }

    fn write_read(&mut self, address: u8, bytes: &[u8], buffer: &mut [u8]) -> Result<(), Fault> {
        let mut log = self.0.borrow_mut();
        log.write_reads.push((address, bytes.to_vec(), buffer.len()));
        if log.fail {
            return Err(Fault("i2c"));
        }
        for (i, b) in buffer.iter_mut().enumerate() {
            *b = log.reply[i];
        }
        Ok(())
    }
}

#[test]
fn i2c_write_sends_register_then_value() {
    let log = Rc::new(RefCell::new(I2cLog::default()));
    let mut iface = I2cInterface::new(MockI2c(log.clone()));
    assert_eq!(iface.write_reg(0x01, 0x40), Ok(()));
    assert_eq!(log.borrow().writes, vec![(0x1E, vec![0x01, 0x40])]);
}

#[test]
fn i2c_read_sends_register_and_fills_block() {
    let log = Rc::new(RefCell::new(I2cLog::default()));
    log.borrow_mut().reply = vec![72, 52, 51];
    let mut iface = I2cInterface::new(MockI2c(log.clone()));
    let mut buf = [0u8; 3];
    assert_eq!(iface.read_block(0x0A, &mut buf), Ok(()));
    assert_eq!(buf, [72, 52, 51]);
    assert_eq!(log.borrow().write_reads, vec![(0x1E, vec![0x0A], 3)]);
}

#[test]
fn i2c_bus_error_is_propagated() {
    let log = Rc::new(RefCell::new(I2cLog::default()));
    log.borrow_mut().fail = true;
    let mut iface = I2cInterface::new(MockI2c(log.clone()));
    assert_eq!(iface.write_reg(0x02, 0x00), Err(Error::Comm(Fault("i2c"))));
    let mut buf = [0u8; 2];
    assert_eq!(iface.read_block(0x31, &mut buf), Err(Error::Comm(Fault("i2c"))));
}

#[derive(Default)]
struct SpiLog {
    events: Vec<&'static str>,
    sent: Vec<Vec<u8>>,
    response: Vec<u8>,
    fail_transfer: bool,
    fail_low: bool,
    fail_high: bool,
}

struct MockSpi(Rc<RefCell<SpiLog>>);

impl SpiDevice for MockSpi {
    type BusError = Fault;

    type PinError = Fault;

    fn set_low(&mut self) -> Result<(), Fault> {
        let mut log = self.0.borrow_mut();
        log.events.push("low");
        if log.fail_low {
            return Err(Fault("cs"));
        }
        Ok(())
    }

    fn set_high(&mut self) -> Result<(), Fault> {
        let mut log = self.0.borrow_mut();
        log.events.push("high");
        if log.fail_high {
            return Err(Fault("cs"));
        }
        Ok(())
    }

    fn write(&mut self, words: &[u8]) -> Result<(), Fault> {
        let mut log = self.0.borrow_mut();
        log.events.push("write");
        log.sent.push(words.to_vec());
        if log.fail_transfer {
            return Err(Fault("spi"));
        }
        Ok(())
    }

    fn transfer<'w>(&mut self, words: &'w mut [u8]) -> Result<&'w [u8], Fault> {
        let mut log = self.0.borrow_mut();
        log.events.push("transfer");
        log.sent.push(words.to_vec());
        if log.fail_transfer {
            return Err(Fault("spi"));
        }
        for (i, w) in words.iter_mut().enumerate() {
            *w = log.response[i];
        }
        Ok(words)
    }
}

fn spi_pair() -> (Rc<RefCell<SpiLog>>, SpiInterface<MockSpi>) {
    let log = Rc::new(RefCell::new(SpiLog::default()));
    let iface = SpiInterface::new(MockSpi(log.clone()));
    (log, iface)
}

#[test]
fn spi_read_frames_six_byte_block() {
    let (log, mut iface) = spi_pair();
    log.borrow_mut().response = vec![0xEE, 1, 2, 3, 4, 5, 6];
    let mut buf = [0u8; 6];
    assert_eq!(iface.read_block(0x03, &mut buf), Ok(()));
    assert_eq!(log.borrow().sent, vec![vec![0x03 | 0x80 | 0x40, 0, 0, 0, 0, 0, 0]]);
    assert_eq!(log.borrow().sent[0].len(), 7);
    assert_eq!(buf, [1, 2, 3, 4, 5, 6]);
    assert_eq!(log.borrow().events, vec!["low", "transfer", "high"]);
}

#[test]
fn spi_write_frames_register_and_value() {
    let (log, mut iface) = spi_pair();
    assert_eq!(iface.write_reg(0x01, 0x40), Ok(()));
    assert_eq!(log.borrow().sent, vec![vec![0x01, 0x40]]);
    assert_eq!(log.borrow().events, vec!["low", "write", "high"]);
}

#[test]
fn spi_releases_chip_select_after_transfer_error() {
    let (log, mut iface) = spi_pair();
    log.borrow_mut().fail_transfer = true;
    let mut buf = [0u8; 2];
    assert_eq!(iface.read_block(0x31, &mut buf), Err(Error::Comm(Fault("spi"))));
    assert_eq!(log.borrow().events, vec!["low", "transfer", "high"]);
    assert_eq!(iface.write_reg(0x00, 0x10), Err(Error::Comm(Fault("spi"))));
    assert_eq!(log.borrow().events[3..], ["low", "write", "high"]);
}

#[test]
fn spi_release_error_is_reported_first() {
    let (log, mut iface) = spi_pair();
    log.borrow_mut().fail_transfer = true;
    log.borrow_mut().fail_high = true;
    let mut buf = [0u8; 1];
    assert_eq!(iface.read_block(0x01, &mut buf), Err(Error::Pin(Fault("cs"))));
    assert_eq!(iface.write_reg(0x01, 0x20), Err(Error::Pin(Fault("cs"))));
}

#[test]
fn spi_select_error_sends_nothing() {
    let (log, mut iface) = spi_pair();
    log.borrow_mut().fail_low = true;
    let mut buf = [0u8; 3];
    assert_eq!(iface.read_block(0x0A, &mut buf), Err(Error::Pin(Fault("cs"))));
    assert_eq!(iface.write_reg(0x02, 0x00), Err(Error::Pin(Fault("cs"))));
    assert!(log.borrow().sent.is_empty());
    assert_eq!(log.borrow().events, vec!["low", "low"]);
}

struct ShortSpi;

impl SpiDevice for ShortSpi {
    type BusError = Fault;

    type PinError = Fault;

    fn set_low(&mut self) -> Result<(), Fault> {
        Ok(())
    }

    fn set_high(&mut self) -> Result<(), Fault> {
        Ok(())
    }

    fn write(&mut self, _words: &[u8]) -> Result<(), Fault> {
        Ok(())
    }

    fn transfer<'w>(&mut self, words: &'w mut [u8]) -> Result<&'w [u8], Fault> {
        words[0] = 0xEE;
        words[1] = 9;
        words[2] = 8;
        Ok(&words[..3])
    }
}

#[test]
fn spi_short_reply_reads_as_zero() {
    let mut iface = SpiInterface::new(ShortSpi);
    let mut buf = [0xFFu8; 4];
    assert_eq!(iface.read_block(0x03, &mut buf), Ok(()));
    assert_eq!(buf, [9, 8, 0, 0]);
}

#[test]
fn spi_largest_block_uses_full_frame() {
    let (log, mut iface) = spi_pair();
    log.borrow_mut().response = (0..32u8).collect();
    let mut buf = [0u8; 31];
    assert_eq!(iface.read_block(0x00, &mut buf), Ok(()));
    assert_eq!(log.borrow().sent[0].len(), 32);
    assert_eq!(log.borrow().sent[0][0], 0xC0);
    let expected: Vec<u8> = (1..32u8).collect();
    assert_eq!(buf.to_vec(), expected);
}

#[test]
fn i2c_largest_block() {
    let log = Rc::new(RefCell::new(I2cLog::default()));
    log.borrow_mut().reply = (100..131u8).collect();
    let mut iface = I2cInterface::new(MockI2c(log.clone()));
    let mut buf = [0u8; 31];
    assert_eq!(iface.read_block(0x20, &mut buf), Ok(()));
    let expected: Vec<u8> = (100..131u8).collect();
    assert_eq!(buf.to_vec(), expected);
    assert_eq!(log.borrow().write_reads, vec![(0x1E, vec![0x20], 31)]);
}
