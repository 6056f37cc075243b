//! The compressor's set of controls: how a host numbers them, and the range
//! that each of them is declared with.

use vstd::prelude::*;

verus! {

/// Number of controls.
pub const PARAMETER_COUNT: usize = 8;

/// One value of type `P` for each control of the compressor, in the order in
/// which a host numbers them.
pub struct CompressorEffectParameters<P> {
    pub threshold: P,
    pub knee: P,
    pub pre_smooth: P,
    pub rms: P,
    pub ratio: P,
    pub attack: P,
    pub release: P,
    pub gain: P,
}

impl<P> CompressorEffectParameters<P> {
    /// The control with number `i`. Every number past the last control
    /// stands for the last one, the gain.
    pub open spec fn at(self, i: int) -> P {
        if i == 0 {
            self.threshold
        } else if i == 1 {
            self.knee
        } else if i == 2 {
            self.pre_smooth
        } else if i == 3 {
            self.rms
        } else if i == 4 {
            self.ratio
        } else if i == 5 {
            self.attack
        } else if i == 6 {
            self.release
        } else {
            self.gain
        }
    }

    /// Number of controls.
    pub fn len(&self) -> (n: usize)
        ensures
            n == PARAMETER_COUNT,
    {
        PARAMETER_COUNT
    }
}

impl<P> vstd::std_specs::core::IndexSpecImpl<usize> for CompressorEffectParameters<P> {
    /// Every number may be asked for.
    open spec fn index_req(&self, index: &usize) -> bool {
        true
    }
}

impl<P> core::ops::Index<usize> for CompressorEffectParameters<P> {
    type Output = P;

    /// The control with number `i`; the gain for every number past the last.
    fn index(&self, i: usize) -> (parameter: &P)
        ensures
            *parameter == self.at(i as int),
    {
        match i {
            0 => &self.threshold,
            1 => &self.knee,
            2 => &self.pre_smooth,
            3 => &self.rms,
            4 => &self.ratio,
            5 => &self.attack,
            6 => &self.release,
            7 => &self.gain,
            _ => &self.gain,
        }
    }
}

/// The unit in which a control is given.
#[derive(Clone, Copy, Debug, PartialEq, Eq, Structural)]
pub enum Unit {
    Decibels,
    Milliseconds,
    Ratio,
}

/// The range that a control is declared with and the value at which it
/// rests, in whole steps of its unit.
#[derive(Clone, Copy, Debug, PartialEq, Eq, Structural)]
pub struct ParameterRange {
    pub min: i32,
    pub max: i32,
    pub default: i32,
    pub unit: Unit,
}

impl ParameterRange {
    /// Whether `value` lies within the range, ends included.
    pub open spec fn admits(self, value: int) -> bool {
        self.min <= value <= self.max
    }
}

/// The ranges that the controls are declared with.
pub open spec fn declared() -> CompressorEffectParameters<ParameterRange> {
    CompressorEffectParameters {
        threshold: ParameterRange { min: -80i32, max: 12, default: 0, unit: Unit::Decibels },
        knee: ParameterRange { min: 0, max: 48, default: 0, unit: Unit::Decibels },
        pre_smooth: ParameterRange { min: 1, max: 300, default: 5, unit: Unit::Milliseconds },
        rms: ParameterRange { min: 0, max: 100, default: 5, unit: Unit::Milliseconds },
        ratio: ParameterRange { min: 1, max: 20, default: 4, unit: Unit::Ratio },
        attack: ParameterRange { min: 0, max: 300, default: 1, unit: Unit::Milliseconds },
        release: ParameterRange { min: 0, max: 1000, default: 100, unit: Unit::Milliseconds },
        gain: ParameterRange { min: -24i32, max: 24, default: 0, unit: Unit::Decibels },
    }
}

/// The ranges that the controls are declared with.
pub fn declared_ranges() -> (ranges: CompressorEffectParameters<ParameterRange>)
    ensures
        ranges == declared(),
{
    CompressorEffectParameters {
        threshold: ParameterRange { min: -80i32, max: 12, default: 0, unit: Unit::Decibels },
        knee: ParameterRange { min: 0, max: 48, default: 0, unit: Unit::Decibels },
        pre_smooth: ParameterRange { min: 1, max: 300, default: 5, unit: Unit::Milliseconds },
        rms: ParameterRange { min: 0, max: 100, default: 5, unit: Unit::Milliseconds },
        ratio: ParameterRange { min: 1, max: 20, default: 4, unit: Unit::Ratio },
        attack: ParameterRange { min: 0, max: 300, default: 1, unit: Unit::Milliseconds },
        release: ParameterRange { min: 0, max: 1000, default: 100, unit: Unit::Milliseconds },
        gain: ParameterRange { min: -24i32, max: 24, default: 0, unit: Unit::Decibels },
    }
}

/// Every control rests at a value within its declared range, under whatever
/// number it is asked for.
pub proof fn lemma_defaults_are_admitted(i: int)
    ensures
        declared().at(i).min <= declared().at(i).max,
        declared().at(i).admits(declared().at(i).default as int),
{
}

} // verus!
