//! Battery state: the conversion from a raw ADC sample to millivolts and a
//! remaining-charge percentage, and the power-source reading.
//!
//! The ADC itself is a peripheral; this module only holds the arithmetic.

use vstd::prelude::*;

verus! {

/// The millivolts a raw 12-bit ADC sample stands for: the ADC maps
/// 0..=4095 onto 0..=3000 mV; a non-positive sample reads as 0.
pub open spec fn spec_mv(sample: i16) -> int {
    if sample <= 0 {
        0
    } else {
        (sample * 3000) / 4095
    }
}

/// Tenths of a percent of charge left for a voltage, from the two-point
/// calibration line 3500 mV -> 0%, 3900 mV -> 100% (so 0.4 mV per tenth of
/// a percent), clamped to 0..=1000.
pub open spec fn spec_percent_m10(mv: int) -> int {
    if mv <= 3500 {
        0
    } else if (mv - 3500) * 5 / 2 >= 1000 {
        1000
    } else {
        (mv - 3500) * 5 / 2
    }
}

/// Remaining battery charge.
#[derive(Debug, Copy, Clone, PartialEq, Eq, Structural)]
pub struct Level {
    /// The output of the battery in millivolts.
    pub mv: u16,
    /// The percentage of battery left, times ten.
    pub percent_m10: u16,
}

impl Level {
    /// Convert one raw ADC sample into a charge level.
    pub fn from_adc_sample(sample: i16) -> (l: Level)
        ensures
            l.mv == spec_mv(sample),
            l.percent_m10 == spec_percent_m10(spec_mv(sample)),
    {
        let mv: u32 = if sample <= 0 {
            0
        } else {
            proof {
                assert((sample as int) * 3000 <= 32767 * 3000) by (nonlinear_arith)
                    requires
                        sample <= 32767,
                ;
                assert(0 <= (sample as int) * 3000) by (nonlinear_arith)
                    requires
                        sample > 0,
                ;
            }
            (sample as u32 * 3000) / 4095
        };
        proof {
            vstd::arithmetic::div_mod::lemma_div_is_ordered(
                (sample as int) * 3000,
                32767int * 3000,
                4095,
            );
            assert(mv <= 32767 * 3000 / 4095);
        }
        let percent_m10: u32 = if mv <= 3500 {
            0
        } else {
            let raw = ((mv - 3500) * 5) / 2;
            if raw >= 1000 {
                1000
            } else {
                raw
            }
        };
        Level { mv: mv as u16, percent_m10: percent_m10 as u16 }
    }
}

/// What is powering the device.
#[derive(Debug, Copy, Clone, PartialEq, Eq, Structural)]
pub enum Source {
    Battery,
    Charger,
}

impl Source {
    /// The power source indicated by the charger-detect pin: high means the
    /// battery is supplying power, low means the charger is.
    pub fn from_pin_high(high: bool) -> (s: Source)
        ensures
            s == (if high {
                Source::Battery
            } else {
                Source::Charger
            }),
    {
        if high {
            Source::Battery
        } else {
            Source::Charger
        }
    }
}

/// A battery reading: the charge level and the power source.
#[derive(Debug, Copy, Clone, PartialEq, Eq, Structural)]
pub struct State {
    pub level: Level,
    pub source: Source,
}

impl State {
    pub fn new(level: Level, source: Source) -> (s: State)
        ensures
            s.level == level && s.source == source,
    {
        State { level, source }
    }
}

} // verus!
