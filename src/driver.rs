use vstd::prelude::*;
use crate::error::{is_bus_error, Error};
use crate::interface::{
    completed, extends, failed, follows, issued, lemma_follows_concat, lemma_follows_prefix,
    lemma_issued_concat, stopped_at, Request, SensorInterface, Transaction, MAX_BLOCK_LEN,
};
use crate::codec::{
    confirm_gain, data_in_range, decode_sample, decode_temperature, expected_id, is_expected_id,
    is_sample_of, temperature_value,
};
use crate::bus::Delay;
use crate::settings::{
    config_a_byte, config_a_value, GainSetting, MeasurementModeSetting, OdrSetting,
    SampleAvgSetting,
};

verus! {

/// Configuration register A: averaging, output data rate, measurement mode.
pub const REG_CONFIG_A: u8 = 0x00;

/// Configuration register B: gain.
pub const REG_CONFIG_B: u8 = 0x01;

/// Mode register (configuration register C).
pub const REG_CONFIG_C: u8 = 0x02;

/// X-axis output register, the first of the six magnetometer data registers.
pub const REG_MAG_DATA_START: u8 = 0x03;

/// Identification register A, the first of three.
pub const REG_ID_A: u8 = 0x0A;

/// Temperature output, most significant byte first.
pub const REG_TEMP_OUTPUT_MSB: u8 = 0x31;

/// Start-up reads registers `0x00` up to (not including) this address to wake the chip.
pub const WAKE_REG_END: u8 = 0x0D;

/// Bytes in one X/Y/Z sample.
pub const XYZ_DATA_LEN: usize = 6;

/// Bytes in one temperature reading.
pub const TEMP_DATA_LEN: usize = 2;

/// Time the chip needs after configuration before its first sample is trusted.
pub const SETTLE_MS: u8 = 100;

/// A run that needs no decision: it follows `script`, and succeeds exactly
/// when all of it succeeded, else reports the bus error that stopped it.
pub open spec fn plain_outcome<T, C, P>(
    run: Seq<Transaction<Error<C, P>>>,
    script: Seq<Request>,
    r: Result<T, Error<C, P>>,
) -> bool {
    &&& follows(run, script)
    &&& r is Ok <==> completed(run, script)
    &&& is_bus_error(r) <==> failed(run)
    &&& r is Ok || is_bus_error(r)
    &&& failed(run) ==> r == Err::<T, Error<C, P>>(run.last().error())
}

/// Requests of `set_all_config_a`: one write of configuration register A.
pub open spec fn config_a_script(val: u8) -> Seq<Request> {
    seq![Request::Write { reg: REG_CONFIG_A, val }]
}

/// Requests of `set_gain`: write configuration register B, then read it back.
pub open spec fn gain_script(val: u8) -> Seq<Request> {
    seq![Request::Write { reg: REG_CONFIG_B, val }, Request::Read { reg: REG_CONFIG_B, len: 1 }]
}

/// Outcome of `set_gain` writing `val`: it succeeds exactly when the read-back
/// returned `val`, fails with `Configuration` when it returned anything else,
/// and otherwise reports the bus error that stopped it.
pub open spec fn gain_outcome<C, P>(run: Seq<Transaction<Error<C, P>>>, val: u8, r: Result<(), Error<C, P>>) -> bool {
    &&& follows(run, gain_script(val))
    &&& is_bus_error(r) <==> failed(run)
    &&& r is Ok <==> completed(run, gain_script(val)) && run[1].reply == seq![val]
    &&& r == Err::<(), Error<C, P>>(Error::Configuration) <==> completed(run, gain_script(val))
        && run[1].reply != seq![val]
    &&& r is Ok || r == Err::<(), Error<C, P>>(Error::Configuration) || is_bus_error(r)
    &&& failed(run) ==> r == Err::<(), Error<C, P>>(run.last().error())
}

/// Requests of `get_mag_vector`: one read of the six data registers.
pub open spec fn sample_script() -> Seq<Request> {
    seq![Request::Read { reg: REG_MAG_DATA_START, len: 6 }]
}

/// Outcome of `get_mag_vector`: the decoded sample, rejected with `OutOfRange`
/// when `check` is on and it leaves the dynamic range.
pub open spec fn sample_outcome<C, P>(
    run: Seq<Transaction<Error<C, P>>>,
    check: bool,
    r: Result<[i16; 3], Error<C, P>>,
) -> bool {
    &&& follows(run, sample_script())
    &&& is_bus_error(r) <==> failed(run)
    &&& r is Ok <==> completed(run, sample_script()) && (check ==> data_in_range(run[0].reply))
    &&& r == Err::<[i16; 3], Error<C, P>>(Error::OutOfRange) <==> completed(run, sample_script())
        && check && !data_in_range(run[0].reply)
    &&& r matches Ok(s) ==> is_sample_of(s, run[0].reply)
    &&& r is Ok || r == Err::<[i16; 3], Error<C, P>>(Error::OutOfRange) || is_bus_error(r)
    &&& failed(run) ==> r == Err::<[i16; 3], Error<C, P>>(run.last().error())
}

/// Requests of `get_temperature`: one read of the two temperature registers.
pub open spec fn temperature_script() -> Seq<Request> {
    seq![Request::Read { reg: REG_TEMP_OUTPUT_MSB, len: 2 }]
}

/// Outcome of `get_temperature`: the decoded temperature, or the bus error.
pub open spec fn temperature_outcome<C, P>(run: Seq<Transaction<Error<C, P>>>, r: Result<i16, Error<C, P>>) -> bool {
    &&& plain_outcome(run, temperature_script(), r)
    &&& r matches Ok(t) ==> t == temperature_value(run[0].reply[0], run[0].reply[1])
}

/// Requests of the start-up wake-up: one single-byte read of each register
/// from `0x00` up to `WAKE_REG_END`.
pub open spec fn wake_script() -> Seq<Request> {
    Seq::new(WAKE_REG_END as nat, |i: int| Request::Read { reg: i as u8, len: 1 })
}

/// Request of the identification check: the three product-ID registers.
pub open spec fn identify_script() -> Seq<Request> {
    seq![Request::Read { reg: REG_ID_A, len: 3 }]
}

/// Request that selects continuous-measurement mode.
pub open spec fn mode_script() -> Seq<Request> {
    seq![Request::Write { reg: REG_CONFIG_C, val: 0 }]
}

/// Configuration register A at start-up: normal measurement, 30 Hz, eight
/// samples averaged, temperature sensor on.
pub open spec fn init_config_a() -> u8 {
    config_a_value(
        MeasurementModeSetting::NormalMode,
        OdrSetting::Odr30_0Hz,
        SampleAvgSetting::AvgSamples8,
        true,
    ) as u8
}

/// Gain register value at start-up.
pub open spec fn init_gain() -> u8 {
    GainSetting::Gain0820.spec_bits()
}

/// Every request of a successful `init`, in order.
pub open spec fn init_script() -> Seq<Request> {
    wake_script() + identify_script() + config_a_script(init_config_a()) + gain_script(init_gain())
        + mode_script()
}

/// Position of the identification read in `init_script`.
pub open spec fn id_step() -> int {
    WAKE_REG_END as int
}

/// Position of the gain read-back in `init_script`.
pub open spec fn gain_confirm_step() -> int {
    id_step() + 3
}

/// Outcome of `init`: it follows `init_script`, goes past the identification
/// read only when the chip answered `expected_id()`, goes past the gain
/// read-back only when it confirmed the gain, and reports exactly why it stopped.
pub open spec fn init_outcome<C, P>(run: Seq<Transaction<Error<C, P>>>, r: Result<(), Error<C, P>>) -> bool {
    &&& follows(run, init_script())
    &&& is_bus_error(r) <==> failed(run)
    &&& r is Ok <==> completed(run, init_script())
    &&& r == Err::<(), Error<C, P>>(Error::UnknownChipId) <==> stopped_at(run, id_step())
        && run[id_step()].reply != expected_id()
    &&& r == Err::<(), Error<C, P>>(Error::Configuration) <==> stopped_at(run, gain_confirm_step())
        && run[gain_confirm_step()].reply != seq![init_gain()]
    &&& run.len() > id_step() + 1 ==> run[id_step()].reply == expected_id()
    &&& run.len() > gain_confirm_step() + 1 ==> run[gain_confirm_step()].reply == seq![init_gain()]
    &&& r is Ok || r == Err::<(), Error<C, P>>(Error::UnknownChipId) || r == Err::<(), Error<C, P>>(
        Error::Configuration,
    ) || is_bus_error(r)
    &&& failed(run) ==> r == Err::<(), Error<C, P>>(run.last().error())
}

/// A register request as a value that a caller carries out.
#[derive(Clone, Copy, Debug, PartialEq, Eq, Structural)]
pub enum Command {
    /// Read `len` consecutive registers starting at `reg`.
    Read { reg: u8, len: usize },
    /// Write `val` to register `reg`.
    Write { reg: u8, val: u8 },
}

impl Command {
    /// The request this command makes.
    pub open spec fn request(self) -> Request {
        match self {
            Command::Read { reg, len } => Request::Read { reg, len: len as nat },
            Command::Write { reg, val } => Request::Write { reg, val },
        }
    }
}

/// Number of register transactions in a successful `init`.
pub const INIT_STEPS: usize = 18;

/// `init_script` has one request for each step.
pub proof fn lemma_init_script_len()
    ensures
        init_script().len() == INIT_STEPS,
{
}

/// The request of start-up step `step`, in the order of `init_script`.
pub fn init_command(step: usize) -> (c: Command)
    requires
        step < INIT_STEPS,
    ensures
        c.request() == init_script()[step as int],
        c matches Command::Read { len, .. } ==> len <= MAX_BLOCK_LEN,
{
    let id_step: usize = WAKE_REG_END as usize;
    if step < id_step {
        proof {
            assert(init_script()[step as int] == wake_script()[step as int]);
        }
        Command::Read { reg: step as u8, len: 1 }
    } else if step == id_step {
        Command::Read { reg: REG_ID_A, len: 3 }
    } else if step == id_step + 1 {
        Command::Write {
            reg: REG_CONFIG_A,
            val: config_a_byte(
                MeasurementModeSetting::NormalMode,
                OdrSetting::Odr30_0Hz,
                SampleAvgSetting::AvgSamples8,
                true,
            ),
        }
    } else if step == id_step + 2 {
        Command::Write { reg: REG_CONFIG_B, val: GainSetting::Gain0820.bits() }
    } else if step == id_step + 3 {
        Command::Read { reg: REG_CONFIG_B, len: 1 }
    } else {
        // continuous-measurement mode
        Command::Write { reg: REG_CONFIG_C, val: MeasurementModeSetting::NormalMode.bits() }
    }
}

/// Whether `init` goes on after `reply` answered its `step`-th request: the
/// identification must name the chip, and the gain must read back as written.
pub open spec fn step_accepts(step: int, reply: Seq<u8>) -> bool {
    &&& step == id_step() ==> reply == expected_id()
    &&& step == gain_confirm_step() ==> reply == seq![init_gain()]
}

/// The decision `init` takes on the reply to its `step`-th request.
pub fn check_init_reply<C, P>(step: usize, reply: &[u8]) -> (r: Result<(), Error<C, P>>)
    ensures
        r is Ok <==> step_accepts(step as int, reply@),
        r == Err::<(), Error<C, P>>(Error::UnknownChipId) <==> step == id_step() && reply@
            != expected_id(),
        r == Err::<(), Error<C, P>>(Error::Configuration) <==> step == gain_confirm_step()
            && reply@ != seq![init_gain()],
        r is Ok || r == Err::<(), Error<C, P>>(Error::UnknownChipId) || r == Err::<(), Error<C, P>>(
            Error::Configuration,
        ),
{
    let id_step: usize = WAKE_REG_END as usize;
    if step == id_step {
        if !is_expected_id(reply) {
            return Err(Error::UnknownChipId);
        }
    } else if step == id_step + 3 {
        return confirm_gain(GainSetting::Gain0820.bits(), reply);
    }
    Ok(())
}

/// An `init` that rejected the chip's identity issued nothing but reads: no
/// configuration register was written.
pub proof fn lemma_unknown_chip_writes_nothing<C, P>(run: Seq<Transaction<Error<C, P>>>, r: Result<(), Error<C, P>>)
    requires
        init_outcome(run, r),
        r == Err::<(), Error<C, P>>(Error::UnknownChipId),
    ensures
        forall|i: int| 0 <= i < run.len() ==> (#[trigger] run[i]).request is Read,
{
    assert forall|i: int| 0 <= i < run.len() implies (#[trigger] run[i]).request is Read by {
        assert(run[i].request == init_script()[i]);
        if i < id_step() {
            assert(init_script()[i] == wake_script()[i]);
        } else {
            assert(init_script()[i] == identify_script()[0]);
        }
    }
}

/// Two sample reads that completed on the same data bytes, with the same
/// range-check setting, give the same result.
pub proof fn lemma_sample_is_deterministic<C, P>(
    run1: Seq<Transaction<Error<C, P>>>,
    r1: Result<[i16; 3], Error<C, P>>,
    run2: Seq<Transaction<Error<C, P>>>,
    r2: Result<[i16; 3], Error<C, P>>,
    check: bool,
)
    requires
        sample_outcome(run1, check, r1),
        sample_outcome(run2, check, r2),
        completed(run1, sample_script()),
        completed(run2, sample_script()),
        run1[0].reply == run2[0].reply,
    ensures
        r1 == r2,
{
    if let Ok(s1) = r1 {
        if let Ok(s2) = r2 {
            assert(s1@ =~= s2@);
            assert(s1 == s2);
        }
    }
}

/// HMC5983 / HMC5883 magnetometer driver over a register transport.
pub struct HMC5983<SI> {
    iface: SI,
    range_check: bool,
}

impl<SI: SensorInterface> HMC5983<SI> {
    /// Transactions performed so far over the driver's interface.
    pub closed spec fn transactions(&self) -> Seq<Transaction<Error<SI::CommError, SI::PinError>>> {
        self.iface.transactions()
    }

    /// Whether `get_mag_vector` rejects samples outside the dynamic range.
    pub closed spec fn checks_range(&self) -> bool {
        self.range_check
    }

    /// Take ownership of a transport. No transaction is performed, and the
    /// range check of samples starts disabled.
    pub fn new(iface: SI) -> (r: Self)
        ensures
            r.transactions() == iface.transactions(),
            !r.checks_range(),
    {
        Self { iface, range_check: false }
    }

    /// Enable or disable the dynamic-range check of `get_mag_vector`.
    pub fn set_range_check(&mut self, enabled: bool)
        ensures
            final(self).transactions() == old(self).transactions(),
            final(self).checks_range() == enabled,
    {
        self.range_check = enabled;
    }

    /// Write a single register.
    fn write_reg(&mut self, reg: u8, val: u8) -> (r: Result<(), Error<SI::CommError, SI::PinError>>)
        ensures
            extends(final(self).transactions(), old(self).transactions()),
            plain_outcome(
                issued(old(self).transactions(), final(self).transactions()),
                seq![Request::Write { reg, val }],
                r,
            ),
            final(self).checks_range() == old(self).checks_range(),
    {
        let r = self.iface.write_reg(reg, val);
        proof {
            let run = issued(old(self).transactions(), self.transactions());
            assert(self.transactions().take(old(self).transactions().len() as int) =~= old(self).transactions());
            assert(run.len() == 1);
            assert(run[0] == self.transactions().last());
        }
        r
    }

    /// Read `len` registers starting at `reg` into a fresh buffer.
    fn read_block(&mut self, reg: u8, len: usize) -> (r: (
        Vec<u8>,
        Result<(), Error<SI::CommError, SI::PinError>>,
    ))
        requires
            len <= MAX_BLOCK_LEN,
        ensures
            extends(final(self).transactions(), old(self).transactions()),
            plain_outcome(
                issued(old(self).transactions(), final(self).transactions()),
                seq![Request::Read { reg, len: len as nat }],
                r.1,
            ),
            issued(old(self).transactions(), final(self).transactions())[0].reply == r.0@,
            r.0@.len() == len,
            final(self).checks_range() == old(self).checks_range(),
    {
        let mut buf: Vec<u8> = vec![0u8; len];
        let rc = self.iface.read_block(reg, buf.as_mut_slice());
        proof {
            let run = issued(old(self).transactions(), self.transactions());
            assert(self.transactions().take(old(self).transactions().len() as int) =~= old(self).transactions());
            assert(run.len() == 1);
            assert(run[0] == self.transactions().last());
        }
        (buf, rc)
    }

    /// Set the mag gain, which determines the range. The value written is
    /// read back and must match.
    pub fn set_gain(&mut self, gain: GainSetting) -> (r: Result<(), Error<SI::CommError, SI::PinError>>)
        ensures
            extends(final(self).transactions(), old(self).transactions()),
            gain_outcome(
                issued(old(self).transactions(), final(self).transactions()),
                gain.spec_bits(),
                r,
            ),
            final(self).checks_range() == old(self).checks_range(),
    {
        let ghost t0 = self.transactions();
        let gain_val = gain.bits();
        let rc = self.write_reg(REG_CONFIG_B, gain_val);
        let ghost t1 = self.transactions();
        proof {
            let r1 = issued(t0, t1);
            assert(r1.len() == 1);
            assert(t1 =~= t0 + r1);
        }
        if let Err(e) = rc {
            proof {
                assert(issued(t0, t1) =~= t1.skip(t0.len() as int));
            }
            return Err(e);
        }
        let (buf, rc) = self.read_block(REG_CONFIG_B, 1);
        let ghost t2 = self.transactions();
        proof {
            let r1 = issued(t0, t1);
            let r2 = issued(t1, t2);
            assert(t2 =~= t1 + r2);
            assert(issued(t0, t2) =~= r1 + r2);
            assert(t2.take(t0.len() as int) =~= t0);
            assert(gain_script(gain_val) =~= seq![Request::Write { reg: REG_CONFIG_B, val: gain_val }]
                + seq![Request::Read { reg: REG_CONFIG_B, len: 1 }]);
            lemma_follows_concat(
                r1,
                seq![Request::Write { reg: REG_CONFIG_B, val: gain_val }],
                r2,
                seq![Request::Read { reg: REG_CONFIG_B, len: 1 }],
            );
        }
        if let Err(e) = rc {
            return Err(e);
        }
        confirm_gain(gain_val, buf.as_slice())
    }

    /// Set all of the configuration register A settings in one write.
    pub fn set_all_config_a(
        &mut self,
        mode: MeasurementModeSetting,
        odr: OdrSetting,
        averaging: SampleAvgSetting,
        temp_enabled: bool,
    ) -> (r: Result<(), Error<SI::CommError, SI::PinError>>)
        ensures
            extends(final(self).transactions(), old(self).transactions()),
            plain_outcome(
                issued(old(self).transactions(), final(self).transactions()),
                config_a_script(config_a_value(mode, odr, averaging, temp_enabled) as u8),
                r,
            ),
            final(self).checks_range() == old(self).checks_range(),
    {
        let new_val = config_a_byte(mode, odr, averaging, temp_enabled);
        self.write_reg(REG_CONFIG_A, new_val)
    }

    /// Read one X, Y, Z sample.
    pub fn get_mag_vector(&mut self) -> (r: Result<[i16; 3], Error<SI::CommError, SI::PinError>>)
        ensures
            extends(final(self).transactions(), old(self).transactions()),
            sample_outcome(
                issued(old(self).transactions(), final(self).transactions()),
                old(self).checks_range(),
                r,
            ),
            final(self).checks_range() == old(self).checks_range(),
    {
        let (buf, rc) = self.read_block(REG_MAG_DATA_START, XYZ_DATA_LEN);
        if let Err(e) = rc {
            return Err(e);
        }
        decode_sample(buf.as_slice(), self.range_check)
    }

    /// Read the temperature in degrees Celsius.
    pub fn get_temperature(&mut self) -> (r: Result<i16, Error<SI::CommError, SI::PinError>>)
        ensures
            extends(final(self).transactions(), old(self).transactions()),
            temperature_outcome(issued(old(self).transactions(), final(self).transactions()), r),
            final(self).checks_range() == old(self).checks_range(),
    {
        let (buf, rc) = self.read_block(REG_TEMP_OUTPUT_MSB, TEMP_DATA_LEN);
        if let Err(e) = rc {
            return Err(e);
        }
        let celsius = decode_temperature(buf[0], buf[1]);
        Ok(celsius)
    }
    /// Identify the chip and configure it for continuous measurement.
    pub fn init<D: Delay>(&mut self, delay_source: &mut D) -> (r: Result<
        (),
        Error<SI::CommError, SI::PinError>,
    >)
        ensures
            extends(final(self).transactions(), old(self).transactions()),
            init_outcome(issued(old(self).transactions(), final(self).transactions()), r),
            r is Ok ==> final(delay_source).pauses() == old(delay_source).pauses().push(SETTLE_MS),
            r is Err ==> final(delay_source).pauses() == old(delay_source).pauses(),
            final(self).checks_range() == old(self).checks_range(),
    {
        self.reset(delay_source)
    }

    fn reset<D: Delay>(&mut self, delay_source: &mut D) -> (r: Result<
        (),
        Error<SI::CommError, SI::PinError>,
    >)
        ensures
            extends(final(self).transactions(), old(self).transactions()),
            init_outcome(issued(old(self).transactions(), final(self).transactions()), r),
            r is Ok ==> final(delay_source).pauses() == old(delay_source).pauses().push(SETTLE_MS),
            r is Err ==> final(delay_source).pauses() == old(delay_source).pauses(),
            final(self).checks_range() == old(self).checks_range(),
    {
        let ghost t0 = self.transactions();
        let mut step: usize = 0;
        proof {
            assert(issued(t0, t0) =~= Seq::<Transaction<Error<SI::CommError, SI::PinError>>>::empty());
            assert(t0.take(t0.len() as int) =~= t0);
            lemma_init_script_len();
        }
        while step < INIT_STEPS
            invariant
                step <= INIT_STEPS,
                init_script().len() == INIT_STEPS,
                t0 == old(self).transactions(),
                extends(self.transactions(), t0),
                completed(issued(t0, self.transactions()), init_script().take(step as int)),
                forall|j: int|
                    0 <= j < step ==> step_accepts(j, #[trigger] issued(t0, self.transactions())[j].reply),
                self.checks_range() == old(self).checks_range(),
            decreases INIT_STEPS - step,
        {
            let ghost t1 = self.transactions();
            let cmd = init_command(step);
            let (reply, rc) = match cmd {
                Command::Read { reg, len } => self.read_block(reg, len),
                Command::Write { reg, val } => (Vec::new(), self.write_reg(reg, val)),
            };
            let ghost t2 = self.transactions();
            proof {
                let prev = issued(t0, t1);
                let last = issued(t1, t2);
                lemma_issued_concat(t0, t1, t2);
                assert(init_script().take(step + 1) =~= init_script().take(step as int) + seq![
                    cmd.request(),
                ]);
                lemma_follows_concat(prev, init_script().take(step as int), last, seq![cmd.request()]);
                lemma_follows_prefix(issued(t0, t2), init_script().take(step + 1), init_script());
                assert(issued(t0, t2)[step as int] == last[0]);
                assert forall|j: int| 0 <= j < step implies #[trigger] issued(t0, t2)[j] == prev[j] by {}
            }
            if let Err(e) = rc {
                return Err(e);
            }
            let checked = check_init_reply(step, reply.as_slice());
            if let Err(e) = checked {
                return Err(e);
            }
            step = step + 1;
        }
        proof {
            assert(init_script().take(INIT_STEPS as int) =~= init_script());
        }
        delay_source.delay_ms(SETTLE_MS);
        Ok(())
    }
}

} // verus!
