use std::cell::RefCell;
use std::rc::Rc;

use hmc5983::bus::Delay;
use hmc5983::{
    Error, GainSetting, I2cBus, I2cInterface, MeasurementModeSetting, OdrSetting, RegisterFile,
    SampleAvgSetting, HMC5983,
};

#[derive(Debug, Clone, PartialEq)]
struct Fault;

struct Chip {
    regs: Vec<u8>,
    writes: Vec<Vec<u8>>,
    reads: Vec<(u8, usize)>,
    gain_readback: Option<u8>,
    fail: bool,
}

impl Chip {
    fn new() -> Chip {
        let mut regs = vec![0u8; 256];
        regs[0x0A] = b'H';
        regs[0x0B] = b'4';
        regs[0x0C] = b'3';
        Chip { regs, writes: Vec::new(), reads: Vec::new(), gain_readback: None, fail: false }
    }
}

struct MockI2c(Rc<RefCell<Chip>>);

impl I2cBus for MockI2c {
    type Error = Fault;

    fn write(&mut self, _address: u8, bytes: &[u8]) -> Result<(), Fault> {
        let mut chip = self.0.borrow_mut();
        if chip.fail {
            return Err(Fault);
        }
        chip.writes.push(bytes.to_vec());
        let reg = bytes[0] as usize;
        chip.regs[reg] = bytes[1];
        Ok(())
    }

    fn write_read(&mut self, _address: u8, bytes: &[u8], buffer: &mut [u8]) -> Result<(), Fault> {
        let mut chip = self.0.borrow_mut();
        if chip.fail {
            return Err(Fault);
        }
        let reg = bytes[0];
        chip.reads.push((reg, buffer.len()));
        for (i, b) in buffer.iter_mut().enumerate() {
            *b = chip.regs[(reg as usize + i) % 256];
        }
        if reg == 0x01 {
            if let Some(v) = chip.gain_readback {
                buffer[0] = v;
            }
        }
        Ok(())
    }
}

struct CountingDelay(u32);

impl Delay for CountingDelay {
    fn delay_ms(&mut self, ms: u8) {
        self.0 += ms as u32;
    }
}

fn driver(chip: &Rc<RefCell<Chip>>) -> HMC5983<I2cInterface<MockI2c>> {
    HMC5983::new(I2cInterface::new(MockI2c(chip.clone())))
}

#[test]
fn init_identifies_and_configures() {
    let chip = Rc::new(RefCell::new(Chip::new()));
    let mut mag = driver(&chip);
    let mut delay = CountingDelay(0);
    assert_eq!(mag.init(&mut delay), Ok(()));
    let c = chip.borrow();
    assert_eq!(c.writes, vec![vec![0x00, 0xF8], vec![0x01, 0x40], vec![0x02, 0x00]]);
    let mut expected_reads: Vec<(u8, usize)> = (0..0x0D).map(|r| (r, 1)).collect();
    expected_reads.push((0x0A, 3));
    expected_reads.push((0x01, 1));
    assert_eq!(c.reads, expected_reads);
    assert_eq!(delay.0, 100);
}

#[test]
fn init_rejects_unknown_chip_without_writing() {
    let chip = Rc::new(RefCell::new(Chip::new()));
    chip.borrow_mut().regs[0x0C] = b'4';
    let mut mag = driver(&chip);
    let mut delay = CountingDelay(0);
    assert_eq!(mag.init(&mut delay), Err(Error::UnknownChipId));
    assert!(chip.borrow().writes.is_empty());
    assert_eq!(chip.borrow().reads.len(), 14);
    assert_eq!(delay.0, 0);
}

#[test]
fn init_fails_when_gain_is_not_confirmed() {
    let chip = Rc::new(RefCell::new(Chip::new()));
    chip.borrow_mut().gain_readback = Some(0x20);
    let mut mag = driver(&chip);
    let mut delay = CountingDelay(0);
    assert_eq!(mag.init(&mut delay), Err(Error::Configuration));
    assert_eq!(chip.borrow().writes, vec![vec![0x00, 0xF8], vec![0x01, 0x40]]);
    assert_eq!(delay.0, 0);
}

#[test]
fn init_reports_bus_error() {
    let chip = Rc::new(RefCell::new(Chip::new()));
    chip.borrow_mut().fail = true;
    let mut mag = driver(&chip);
    let mut delay = CountingDelay(0);
    assert_eq!(mag.init(&mut delay), Err(Error::Comm(Fault)));
    assert_eq!(delay.0, 0);
}

#[test]
fn set_gain_confirmed() {
    let chip = Rc::new(RefCell::new(Chip::new()));
    let mut mag = driver(&chip);
    assert_eq!(mag.set_gain(GainSetting::Gain0820), Ok(()));
    assert_eq!(chip.borrow().writes, vec![vec![0x01, 0b0100_0000]]);
    assert_eq!(chip.borrow().reads, vec![(0x01, 1)]);
}

#[test]
fn set_gain_readback_mismatch() {
    let chip = Rc::new(RefCell::new(Chip::new()));
    chip.borrow_mut().gain_readback = Some(0b0110_0000);
    let mut mag = driver(&chip);
    assert_eq!(mag.set_gain(GainSetting::Gain0820), Err(Error::Configuration));
}

#[test]
fn set_gain_bus_error() {
    let chip = Rc::new(RefCell::new(Chip::new()));
    chip.borrow_mut().fail = true;
    let mut mag = driver(&chip);
    assert_eq!(mag.set_gain(GainSetting::Gain0230), Err(Error::Comm(Fault)));
}

#[test]
fn set_all_config_a_writes_one_byte() {
    let chip = Rc::new(RefCell::new(Chip::new()));
    let mut mag = driver(&chip);
    let r = mag.set_all_config_a(
        MeasurementModeSetting::PositiveBias,
        OdrSetting::Odr7_5Hz,
        SampleAvgSetting::AvgSamples4,
        true,
    );
    assert_eq!(r, Ok(()));
    assert_eq!(chip.borrow().writes, vec![vec![0x00, 0b1100_1101]]);
}

#[test]
fn mag_vector_decodes_x_y_z() {
    let chip = Rc::new(RefCell::new(Chip::new()));
    chip.borrow_mut().regs[0x03..0x09].copy_from_slice(&[0x34, 0x12, 0xFF, 0xFF, 0x00, 0x80]);
    let mut mag = driver(&chip);
    assert_eq!(mag.get_mag_vector(), Ok([0x1234, -1, -32768]));
    assert_eq!(chip.borrow().reads, vec![(0x03, 6)]);
}

#[test]
fn mag_vector_twice_gives_same_sample() {
    let chip = Rc::new(RefCell::new(Chip::new()));
    chip.borrow_mut().regs[0x03..0x09].copy_from_slice(&[0x10, 0x02, 0xF0, 0xFD, 0x00, 0x01]);
    let mut mag = driver(&chip);
    let first = mag.get_mag_vector();
    let second = mag.get_mag_vector();
    assert_eq!(first, Ok([0x0210, -528, 256]));
    assert_eq!(first, second);
}

#[test]
fn mag_vector_range_check() {
    let chip = Rc::new(RefCell::new(Chip::new()));
    chip.borrow_mut().regs[0x03..0x09].copy_from_slice(&[0x00, 0x80, 0x00, 0x00, 0x00, 0x00]);
    let mut mag = driver(&chip);
    assert_eq!(mag.get_mag_vector(), Ok([-32768, 0, 0]));
    mag.set_range_check(true);
    assert_eq!(mag.get_mag_vector(), Err(Error::OutOfRange));
    chip.borrow_mut().regs[0x03..0x09].copy_from_slice(&[0xD5, 0x14, 0x2B, 0xEB, 0x8D, 0x20]);
    assert_eq!(mag.get_mag_vector(), Ok([5333, -5333, 8333]));
}

#[test]
fn mag_vector_bus_error() {
    let chip = Rc::new(RefCell::new(Chip::new()));
    chip.borrow_mut().fail = true;
    let mut mag = driver(&chip);
    assert_eq!(mag.get_mag_vector(), Err(Error::Comm(Fault)));
}

#[test]
fn temperature_from_registers() {
    let chip = Rc::new(RefCell::new(Chip::new()));
    chip.borrow_mut().regs[0x31] = 0x19;
    chip.borrow_mut().regs[0x32] = 0x00;
    let mut mag = driver(&chip);
    assert_eq!(mag.get_temperature(), Ok(75));
    assert_eq!(chip.borrow().reads, vec![(0x31, 2)]);
}

#[test]
fn driver_over_register_file() {
    let mut rf = RegisterFile::new();
    rf.preset(0x0A, 72);
    rf.preset(0x0B, 52);
    rf.preset(0x0C, 51);
    rf.preset(0x03, 0x05);
    rf.preset(0x08, 0xFF);
    let mut mag = HMC5983::new(rf);
    let mut delay = CountingDelay(0);
    assert_eq!(mag.init(&mut delay), Ok(()));
    assert_eq!(mag.get_mag_vector(), Ok([5, 0, -256]));
    assert_eq!(mag.get_temperature(), Ok(25));
}
