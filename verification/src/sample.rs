//! Sample types and color models: how a channel is stored and how many
//! channels a pixel has.

use vstd::prelude::*;

verus! {

/// The level that stands for full intensity.
pub const LEVEL_MAX: i64 = 65535;

/// The numeric representation of one stored channel.
#[derive(Clone, Copy, Debug, PartialEq, Eq, Structural)]
pub enum SampleType {
    /// 8-bit unsigned samples.
    U8,
    /// 16-bit unsigned samples.
    U16,
}

/// The channel layout of a pixel. The order of the channels is fixed by the
/// model.
#[derive(Clone, Copy, Debug, PartialEq, Eq, Structural)]
pub enum ColorModel {
    Gray,
    Rgb,
    Rgba,
    Xyz,
}

/// `level` held to the range from black to full intensity.
pub open spec fn clamp_level(level: int) -> int {
    if level < 0 {
        0
    } else if level > LEVEL_MAX as int {
        LEVEL_MAX as int
    } else {
        level
    }
}

impl SampleType {
    /// The largest sample of this type.
    pub open spec fn max_sample(self) -> int {
        match self {
            SampleType::U8 => 255,
            SampleType::U16 => 65535,
        }
    }

    /// The number of levels between two neighbouring samples.
    pub open spec fn step(self) -> int {
        match self {
            SampleType::U8 => 257,
            SampleType::U16 => 1,
        }
    }

    /// The level that a stored sample stands for.
    pub open spec fn level_of(self, sample: int) -> int {
        sample * self.step()
    }

    /// The sample nearest to a level, after the level is clamped.
    pub open spec fn sample_of(self, level: int) -> int {
        (clamp_level(level) + self.step() / 2) / self.step()
    }

    /// The level that is read back after `level` was stored.
    pub open spec fn quantize(self, level: int) -> int {
        self.level_of(self.sample_of(level))
    }

    /// The name of the sample type.
    pub open spec fn spec_name(self) -> Seq<char> {
        match self {
            SampleType::U8 => "u8"@,
            SampleType::U16 => "u16"@,
        }
    }

    /// The name of the sample type.
    pub fn name(&self) -> (name: &'static str)
        ensures
            name@ == self.spec_name(),
    {
        match self {
            SampleType::U8 => "u8",
            SampleType::U16 => "u16",
        }
    }

    /// The level of a stored sample.
    pub fn to_level(&self, sample: u16) -> (level: i64)
        requires
            sample <= self.max_sample(),
        ensures
            level == self.level_of(sample as int),
            0 <= level <= LEVEL_MAX,
    {
        match self {
            SampleType::U8 => (sample as i64) * 257,
            SampleType::U16 => sample as i64,
        }
    }

    /// The sample that stores `level`: the level is clamped, then rounded to
    /// the nearest sample.
    pub fn from_level(&self, level: i64) -> (sample: u16)
        ensures
            sample == self.sample_of(level as int),
            sample <= self.max_sample(),
    {
        let clamped: i64 = if level < 0 {
            0
        } else if level > LEVEL_MAX {
            LEVEL_MAX
        } else {
            level
        };
        match self {
            SampleType::U8 => ((clamped + 128) / 257) as u16,
            SampleType::U16 => clamped as u16,
        }
    }
}

impl ColorModel {
    /// The number of channels of a pixel.
    pub open spec fn spec_channels(self) -> nat {
        match self {
            ColorModel::Gray => 1,
            ColorModel::Rgb => 3,
            ColorModel::Rgba => 4,
            ColorModel::Xyz => 3,
        }
    }

    /// The name of the color model.
    pub open spec fn spec_name(self) -> Seq<char> {
        match self {
            ColorModel::Gray => "gray"@,
            ColorModel::Rgb => "rgb"@,
            ColorModel::Rgba => "rgba"@,
            ColorModel::Xyz => "xyz"@,
        }
    }

    /// The number of channels of a pixel.
    pub fn channels(&self) -> (n: usize)
        ensures
            n == self.spec_channels(),
            1 <= n <= 4,
    {
        match self {
            ColorModel::Gray => 1,
            ColorModel::Rgb => 3,
            ColorModel::Rgba => 4,
            ColorModel::Xyz => 3,
        }
    }

    /// The name of the color model.
    pub fn name(&self) -> (name: &'static str)
        ensures
            name@ == self.spec_name(),
    {
        match self {
            ColorModel::Gray => "gray",
            ColorModel::Rgb => "rgb",
            ColorModel::Rgba => "rgba",
            ColorModel::Xyz => "xyz",
        }
    }
}

/// Storing the level of a sample gives the sample back.
pub proof fn lemma_sample_round_trip(kind: SampleType, sample: int)
    requires
        0 <= sample <= kind.max_sample(),
    ensures
        kind.sample_of(kind.level_of(sample)) == sample,
        kind.quantize(kind.level_of(sample)) == kind.level_of(sample),
        0 <= kind.level_of(sample) <= LEVEL_MAX,
{
}

/// What is read back after a store is a level in range that stores as
/// itself.
pub proof fn lemma_quantize_idempotent(kind: SampleType, level: int)
    ensures
        0 <= kind.sample_of(level) <= kind.max_sample(),
        0 <= kind.quantize(level) <= LEVEL_MAX,
        kind.quantize(kind.quantize(level)) == kind.quantize(level),
{
    lemma_sample_round_trip(kind, kind.sample_of(level));
}

} // verus!
