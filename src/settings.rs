use vstd::prelude::*;

verus! {

/// Gain settings (in LSb/Gauss), the upper three bits of configuration register B.
#[derive(Clone, Copy, Debug, PartialEq, Eq, Structural)]
pub enum GainSetting {
    /// ± 0.88 Ga, 0.73 mGa/LSb
    Gain1370,
    /// ± 1.30 Ga, 0.92 mGa/LSb
    Gain1090,
    /// ± 1.90 Ga, 1.22 mGa/LSb
    Gain0820,
    /// ± 2.50 Ga, 1.52 mGa/LSb
    Gain0660,
    /// ± 4.00 Ga, 2.27 mGa/LSb
    Gain0440,
    /// ± 4.70 Ga, 2.56 mGa/LSb
    Gain0390,
    /// ± 5.60 Ga, 3.03 mGa/LSb
    Gain0330,
    /// ± 8.10 Ga, 4.35 mGa/LSb
    Gain0230,
}

impl GainSetting {
    /// Register value of the setting: its index in bits 7..5.
    pub open spec fn spec_bits(self) -> u8 {
        match self {
            GainSetting::Gain1370 => 0b0000_0000,
            GainSetting::Gain1090 => 0b0010_0000,
            GainSetting::Gain0820 => 0b0100_0000,
            GainSetting::Gain0660 => 0b0110_0000,
            GainSetting::Gain0440 => 0b1000_0000,
            GainSetting::Gain0390 => 0b1010_0000,
            GainSetting::Gain0330 => 0b1100_0000,
            GainSetting::Gain0230 => 0b1110_0000,
        }
    }

    /// Sensitivity of the setting in counts per gauss.
    pub open spec fn spec_counts_per_gauss(self) -> u16 {
        match self {
            GainSetting::Gain1370 => 1370,
            GainSetting::Gain1090 => 1090,
            GainSetting::Gain0820 => 820,
            GainSetting::Gain0660 => 660,
            GainSetting::Gain0440 => 440,
            GainSetting::Gain0390 => 390,
            GainSetting::Gain0330 => 330,
            GainSetting::Gain0230 => 230,
        }
    }

    /// The byte written to configuration register B for this setting.
    pub fn bits(&self) -> (r: u8)
        ensures
            r == self.spec_bits(),
    {
        match self {
            GainSetting::Gain1370 => 0b0000_0000,
            GainSetting::Gain1090 => 0b0010_0000,
            GainSetting::Gain0820 => 0b0100_0000,
            GainSetting::Gain0660 => 0b0110_0000,
            GainSetting::Gain0440 => 0b1000_0000,
            GainSetting::Gain0390 => 0b1010_0000,
            GainSetting::Gain0330 => 0b1100_0000,
            GainSetting::Gain0230 => 0b1110_0000,
        }
    }

    /// Sensitivity in counts per gauss.
    pub fn counts_per_gauss(&self) -> (r: u16)
        ensures
            r == self.spec_counts_per_gauss(),
    {
        match self {
            GainSetting::Gain1370 => 1370,
            GainSetting::Gain1090 => 1090,
            GainSetting::Gain0820 => 820,
            GainSetting::Gain0660 => 660,
            GainSetting::Gain0440 => 440,
            GainSetting::Gain0390 => 390,
            GainSetting::Gain0330 => 330,
            GainSetting::Gain0230 => 230,
        }
    }
}

/// Output data rate settings, in Hz.
#[derive(Clone, Copy, Debug, PartialEq, Eq, Structural)]
pub enum OdrSetting {
    Odr0_75Hz,
    Odr1_5Hz,
    Odr3_0Hz,
    Odr7_5Hz,
    Odr15_0Hz,
    Odr30_0Hz,
    Odr220_0Hz,
}

impl OdrSetting {
    /// Three-bit field value of the rate.
    pub open spec fn spec_bits(self) -> u8 {
        match self {
            OdrSetting::Odr0_75Hz => 0b000,
            OdrSetting::Odr1_5Hz => 0b001,
            OdrSetting::Odr3_0Hz => 0b010,
            OdrSetting::Odr7_5Hz => 0b011,
            OdrSetting::Odr15_0Hz => 0b100,
            OdrSetting::Odr30_0Hz => 0b110,
            OdrSetting::Odr220_0Hz => 0b111,
        }
    }

    pub fn bits(&self) -> (r: u8)
        ensures
            r == self.spec_bits(),
            r < 8,
    {
        match self {
            OdrSetting::Odr0_75Hz => 0b000,
            OdrSetting::Odr1_5Hz => 0b001,
            OdrSetting::Odr3_0Hz => 0b010,
            OdrSetting::Odr7_5Hz => 0b011,
            OdrSetting::Odr15_0Hz => 0b100,
            OdrSetting::Odr30_0Hz => 0b110,
            OdrSetting::Odr220_0Hz => 0b111,
        }
    }
}

/// Number of samples averaged per measurement.
#[derive(Clone, Copy, Debug, PartialEq, Eq, Structural)]
pub enum SampleAvgSetting {
    AvgSamples1,
    AvgSamples2,
    AvgSamples4,
    /// Average 8 samples
    AvgSamples8,
}

impl SampleAvgSetting {
    /// Two-bit field value of the setting.
    pub open spec fn spec_bits(self) -> u8 {
        match self {
            SampleAvgSetting::AvgSamples1 => 0b00,
            SampleAvgSetting::AvgSamples2 => 0b01,
            SampleAvgSetting::AvgSamples4 => 0b10,
            SampleAvgSetting::AvgSamples8 => 0b11,
        }
    }

    pub fn bits(&self) -> (r: u8)
        ensures
            r == self.spec_bits(),
            r < 4,
    {
        match self {
            SampleAvgSetting::AvgSamples1 => 0b00,
            SampleAvgSetting::AvgSamples2 => 0b01,
            SampleAvgSetting::AvgSamples4 => 0b10,
            SampleAvgSetting::AvgSamples8 => 0b11,
        }
    }
}

/// Measurement mode settings.
#[derive(Clone, Copy, Debug, PartialEq, Eq, Structural)]
pub enum MeasurementModeSetting {
    NormalMode,
    /// Positive bias current
    PositiveBias,
    /// Negative bias current (not supported by the HMC5883)
    NegativeBias,
    /// Temperature sensor only (not supported by the HMC5883)
    TemperatureOnly,
}

impl MeasurementModeSetting {
    /// Two-bit field value of the mode.
    pub open spec fn spec_bits(self) -> u8 {
        match self {
            MeasurementModeSetting::NormalMode => 0b00,
            MeasurementModeSetting::PositiveBias => 0b01,
            MeasurementModeSetting::NegativeBias => 0b10,
            MeasurementModeSetting::TemperatureOnly => 0b11,
        }
    }

    pub fn bits(&self) -> (r: u8)
        ensures
            r == self.spec_bits(),
            r < 4,
    {
        match self {
            MeasurementModeSetting::NormalMode => 0b00,
            MeasurementModeSetting::PositiveBias => 0b01,
            MeasurementModeSetting::NegativeBias => 0b10,
            MeasurementModeSetting::TemperatureOnly => 0b11,
        }
    }
}

/// Configuration register A as the sum of its fields: temperature enable in
/// bit 7, averaging in bits 6..5, output data rate in bits 4..2 and the
/// measurement mode in bits 1..0.
pub open spec fn config_a_value(
    mode: MeasurementModeSetting,
    odr: OdrSetting,
    averaging: SampleAvgSetting,
    temp_enabled: bool,
) -> int {
    (if temp_enabled { 128int } else { 0int }) + 32 * averaging.spec_bits() + 4 * odr.spec_bits()
        + mode.spec_bits()
}

/// Composes configuration register A by OR-ing the four non-overlapping fields.
pub fn config_a_byte(
    mode: MeasurementModeSetting,
    odr: OdrSetting,
    averaging: SampleAvgSetting,
    temp_enabled: bool,
) -> (r: u8)
    ensures
        r == config_a_value(mode, odr, averaging, temp_enabled),
        (r >> 7u8) == (if temp_enabled { 1u8 } else { 0u8 }),
        (r >> 5u8) & 3 == averaging.spec_bits(),
        (r >> 2u8) & 7 == odr.spec_bits(),
        r & 3 == mode.spec_bits(),
{
    let t: u8 = if temp_enabled { 1 } else { 0 };
    let a = averaging.bits();
    let o = odr.bits();
    let m = mode.bits();
    let r: u8 = (t << 7u8) | (a << 5u8) | (o << 2u8) | m;
    assert(r == t * 128 + a * 32 + o * 4 + m && (r >> 7u8) == t && (r >> 5u8) & 3 == a && (r
        >> 2u8) & 7 == o && r & 3 == m) by (bit_vector)
        requires
            t < 2,
            a < 4,
            o < 8,
            m < 4,
            r == (t << 7u8) | (a << 5u8) | (o << 2u8) | m,
    ;
    r
}

} // verus!
