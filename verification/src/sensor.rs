//! Temperatures and what a board's temperature sensor reports.
//!
//! A temperature is a whole number of 1/256 °C steps, which is the step of
//! the sensors' fraction registers, so every reading is held exactly.

use vstd::prelude::*;
use vstd::string::*;
use crate::text::{decimal, push_decimal};

verus! {

/// Steps per degree.
pub const STEPS_PER_DEGREE: i32 = 256;

/// A temperature in steps of 1/256 °C.
#[derive(Clone, Copy, Debug, PartialEq, Eq, Structural)]
pub struct Celsius {
    pub raw: i32,
}

/// The whole degree nearest to `steps` steps of 1/256 degree; a half goes to
/// the even neighbour.
pub open spec fn round_steps(steps: nat) -> nat {
    let whole = steps / 256;
    let part = steps % 256;
    if part > 128 || (part == 128 && whole % 2 == 1) {
        whole + 1
    } else {
        whole
    }
}

/// The size of `x` without its sign.
pub open spec fn magnitude(x: int) -> nat {
    if x < 0 {
        (-x) as nat
    } else {
        x as nat
    }
}

/// The sum of `a` and `b`, kept within the range of `i32`.
pub open spec fn saturating_sum(a: int, b: int) -> int {
    if a + b > i32::MAX {
        i32::MAX as int
    } else if a + b < i32::MIN {
        i32::MIN as int
    } else {
        a + b
    }
}

impl Celsius {
    /// A whole number of degrees.
    pub fn from_degrees(degrees: i16) -> (t: Self)
        ensures
            t.raw == degrees * 256,
    {
        let wide: i32 = degrees as i32;
        Celsius { raw: wide * 256 }
    }

    /// A number of 1/256 °C steps.
    pub fn from_raw(raw: i32) -> (t: Self)
        ensures
            t.raw == raw,
    {
        Celsius { raw }
    }

    /// The warmer of two temperatures.
    pub open spec fn spec_max(self, other: Celsius) -> Celsius {
        if self.raw >= other.raw {
            self
        } else {
            other
        }
    }

    /// The warmer of two temperatures.
    #[verifier::when_used_as_spec(spec_max)]
    pub fn max(self, other: Celsius) -> (t: Celsius)
        ensures
            t == self.spec_max(other),
    {
        if self.raw >= other.raw {
            self
        } else {
            other
        }
    }

    /// This temperature raised by `degrees`, kept within what the type holds.
    pub open spec fn spec_plus_degrees(self, degrees: i16) -> Celsius {
        Celsius { raw: saturating_sum(self.raw as int, degrees * 256) as i32 }
    }

    /// This temperature raised by `degrees`, kept within what the type holds.
    #[verifier::when_used_as_spec(spec_plus_degrees)]
    pub fn plus_degrees(self, degrees: i16) -> (t: Celsius)
        ensures
            t == self.spec_plus_degrees(degrees),
    {
        let step: i64 = (degrees as i64) * 256;
        let sum: i64 = (self.raw as i64) + step;
        let raw: i32 = if sum > i32::MAX as i64 {
            i32::MAX
        } else if sum < i32::MIN as i64 {
            i32::MIN
        } else {
            sum as i32
        };
        Celsius { raw }
    }

    /// Whether this temperature is at least `limit`.
    pub fn at_least(self, limit: Celsius) -> (reached: bool)
        ensures
            reached == (self.raw >= limit.raw),
    {
        self.raw >= limit.raw
    }

    /// How a temperature is written: rounded to the nearest whole degree,
    /// with a minus sign below zero, followed by `°C`.
    pub open spec fn text(&self) -> Seq<char> {
        let sign = if self.raw < 0 {
            "-"@
        } else {
            Seq::<char>::empty()
        };
        sign + decimal(round_steps(magnitude(self.raw as int))) + "°C"@
    }

    /// Appends the temperature, as it is written in messages, to `out`.
    pub fn push_to(&self, out: &mut String)
        ensures
            final(out)@ == old(out)@ + self.text(),
    {
        let wide: i64 = self.raw as i64;
        let size: u64 = if wide < 0 {
            (-wide) as u64
        } else {
            wide as u64
        };
        let whole: u64 = size / 256;
        let part: u64 = size % 256;
        let rounded: u64 = if part > 128 || (part == 128 && whole % 2 == 1) {
            whole + 1
        } else {
            whole
        };
        assert(rounded == round_steps(magnitude(self.raw as int)));
        if self.raw < 0 {
            out.append("-");
        }
        push_decimal(out, rounded);
        out.append("°C");
        assert(final(out)@ =~= old(out)@ + self.text());
    }

    /// The temperature as it is written in messages.
    pub fn to_string(&self) -> (text: String)
        ensures
            text@ == self.text(),
    {
        let mut text = String::new();
        self.push_to(&mut text);
        assert(text@ =~= self.text());
        text
    }
}

/// What one sensor channel reports.
#[derive(Clone, Copy, Debug, PartialEq, Eq, Structural)]
pub enum Measurement {
    /// The channel measured a temperature
    Measured(Celsius),
    /// The sensor diode is not connected
    OpenCircuit,
    /// The sensor diode is shorted
    ShortCircuit,
    /// The channel returned a value that makes no sense
    InvalidReading,
    /// The sensor has no such channel
    NotPresent,
}

/// One reading of a board's sensor: the sensor's own temperature (`local`,
/// the circuit board) and that of the diode it watches (`remote`, the chip).
#[derive(Clone, Copy, Debug, PartialEq, Eq, Structural)]
pub struct Temperature {
    pub local: Measurement,
    pub remote: Measurement,
}

/// Register of a TMP451 sensor with the whole degrees of its own temperature.
pub const REG_LOCAL_TEMP: u8 = 0x00;

/// Register with the whole degrees of the remote temperature.
pub const REG_REMOTE_TEMP: u8 = 0x01;

/// Status register.
pub const REG_STATUS: u8 = 0x02;

/// Bit of the status register that reports an open circuit.
pub const STATUS_OPEN_CIRCUIT: u8 = 0x04;

/// Configuration register, for reading.
pub const REG_CONFIG: u8 = 0x03;

/// Configuration register, for writing.
pub const REG_CONFIG_W: u8 = 0x09;

/// Bit of the configuration that selects the extended range.
pub const CONFIG_RANGE: u8 = 0x04;

/// Register with the offset of the remote temperature.
pub const REG_OFFSET: u8 = 0x11;

/// Register with the fraction of the remote temperature.
pub const REG_REMOTE_FRAC_TEMP: u8 = 0x10;

/// Register with the fraction of the sensor's own temperature.
pub const REG_LOCAL_FRAC_TEMP: u8 = 0x15;

/// In the extended range the sensor reports degrees above -64 °C.
pub const EXTENDED_RANGE_OFFSET: i32 = 64;

/// The temperature that the sensor means by `whole` degrees above -64 °C
/// and `fract` steps of 1/256 degree.
pub open spec fn spec_make_temp(whole: u8, fract: u8) -> Celsius {
    Celsius { raw: ((whole - EXTENDED_RANGE_OFFSET) * STEPS_PER_DEGREE + fract) as i32 }
}

/// The temperature that the sensor means by the contents of its registers.
#[verifier::when_used_as_spec(spec_make_temp)]
pub fn make_temp(whole: u8, fract: u8) -> (t: Celsius)
    ensures
        t == spec_make_temp(whole, fract),
{
    Celsius { raw: (whole as i32 - EXTENDED_RANGE_OFFSET) * STEPS_PER_DEGREE + fract as i32 }
}

/// What the registers of a sensor with a remote channel say.
///
/// The sensor's own temperature is always a measurement. The remote one is
/// missing when the status reports an open circuit, and shorted when its
/// whole degrees read zero. Where a sensor has no fraction registers, or
/// they are not to be used, the fractions are given as zero.
pub open spec fn spec_interpret_registers(
    status: u8,
    local_temp: u8,
    local_frac: u8,
    remote_temp: u8,
    remote_frac: u8,
) -> Temperature {
    Temperature {
        local: Measurement::Measured(make_temp(local_temp, local_frac)),
        remote: if status & STATUS_OPEN_CIRCUIT != 0 {
            Measurement::OpenCircuit
        } else if remote_temp == 0 {
            Measurement::ShortCircuit
        } else {
            Measurement::Measured(make_temp(remote_temp, remote_frac))
        },
    }
}

/// What the registers of a sensor with a remote channel say.
#[verifier::when_used_as_spec(spec_interpret_registers)]
pub fn interpret_registers(
    status: u8,
    local_temp: u8,
    local_frac: u8,
    remote_temp: u8,
    remote_frac: u8,
) -> (reading: Temperature)
    ensures
        reading == spec_interpret_registers(
            status,
            local_temp,
            local_frac,
            remote_temp,
            remote_frac,
        ),
{
    let local = Measurement::Measured(make_temp(local_temp, local_frac));
    let remote = if (status & STATUS_OPEN_CIRCUIT) != 0 {
        Measurement::OpenCircuit
    } else if remote_temp == 0 {
        Measurement::ShortCircuit
    } else {
        Measurement::Measured(make_temp(remote_temp, remote_frac))
    };
    Temperature { local, remote }
}

/// What the registers of a sensor without a remote channel say.
pub fn interpret_local_register(local_temp: u8) -> (reading: Temperature)
    ensures
        reading == (Temperature {
            local: Measurement::Measured(make_temp(local_temp, 0)),
            remote: Measurement::NotPresent,
        }),
{
    Temperature {
        local: Measurement::Measured(make_temp(local_temp, 0)),
        remote: Measurement::NotPresent,
    }
}

/// The kinds of sensor that are driven.
#[derive(Clone, Copy, Debug, PartialEq, Eq, Structural)]
pub enum SensorKind {
    /// Remote channel, with fractions
    TMP451,
    /// Remote channel, whole degrees only
    ADT7461,
    /// No remote channel
    NCT218,
}

impl SensorKind {
    /// Whether the fraction registers are read.
    pub fn uses_fractions(&self) -> (uses: bool)
        ensures
            uses == (*self is TMP451),
    {
        match self {
            SensorKind::TMP451 => true,
            _ => false,
        }
    }

    /// Whether the sensor has a remote channel.
    pub fn has_remote(&self) -> (has: bool)
        ensures
            has == !(*self is NCT218),
    {
        match self {
            SensorKind::NCT218 => false,
            _ => true,
        }
    }

    /// What a sensor of this kind says by the contents of its registers:
    /// registers that the kind does not have or use count for nothing.
    pub fn read_temperature(
        &self,
        status: u8,
        local_temp: u8,
        local_frac: u8,
        remote_temp: u8,
        remote_frac: u8,
    ) -> (reading: Temperature)
        ensures
            reading == match *self {
                SensorKind::TMP451 => interpret_registers(
                    status,
                    local_temp,
                    local_frac,
                    remote_temp,
                    remote_frac,
                ),
                SensorKind::ADT7461 => interpret_registers(status, local_temp, 0, remote_temp, 0),
                SensorKind::NCT218 => Temperature {
                    local: Measurement::Measured(make_temp(local_temp, 0)),
                    remote: Measurement::NotPresent,
                },
            },
    {
        match self {
            SensorKind::TMP451 => interpret_registers(
                status,
                local_temp,
                local_frac,
                remote_temp,
                remote_frac,
            ),
            SensorKind::ADT7461 => interpret_registers(status, local_temp, 0, remote_temp, 0),
            SensorKind::NCT218 => interpret_local_register(local_temp),
        }
    }
}

} // verus!
