//! Typed readings of the raw measurement bytes a data-frame record
//! carries, decoded under the owning PMU's format word.

use vstd::prelude::*;

use crate::bytes_be::{be16_at, be32_at, read_u16, read_u32};
use crate::frame_parser::{spec_analog_size, spec_phasor_size};
use crate::frames::{PMUConfigurationFrame2011, PMUDataFrameFloat2011, PMUDataFrameInt2011};

verus! {

/// One decoded phasor. Integer phasors are 16-bit; a polar magnitude is
/// unsigned while every other integer component is signed. Float
/// components are IEEE 754 binary32 bit patterns.
#[derive(Debug, Clone, Copy, PartialEq, Eq, Structural)]
pub enum PhasorValue {
    /// Real and imaginary parts, 16-bit integers.
    IntRect(i16, i16),
    /// Unsigned magnitude and an angle in ten-thousandths of a radian.
    IntPolar(u16, i16),
    /// Real and imaginary parts, binary32 bit patterns.
    FloatRect(u32, u32),
    /// Magnitude and an angle in radians, binary32 bit patterns.
    FloatPolar(u32, u32),
}

/// A list of decoded analog values: 16-bit integers, or IEEE 754
/// binary32 bit patterns, per the format word.
#[derive(Debug, Clone, PartialEq)]
pub enum PMUValues {
    Fixed(Vec<i16>),
    Float(Vec<u32>),
}

/// The `j`-th phasor held in `bytes` under `format`: rectangular or
/// polar by bit 0, integer or float by bit 1.
pub open spec fn spec_phasor_value(bytes: Seq<u8>, j: int, format: u16) -> PhasorValue {
    let at = j * spec_phasor_size(format);
    if format & 0x2 != 0 {
        if format & 0x1 != 0 {
            PhasorValue::FloatPolar(be32_at(bytes, at), be32_at(bytes, at + 4))
        } else {
            PhasorValue::FloatRect(be32_at(bytes, at), be32_at(bytes, at + 4))
        }
    } else {
        if format & 0x1 != 0 {
            PhasorValue::IntPolar(be16_at(bytes, at), be16_at(bytes, at + 2) as i16)
        } else {
            PhasorValue::IntRect(be16_at(bytes, at) as i16, be16_at(bytes, at + 2) as i16)
        }
    }
}

/// The analog values held in `bytes` under `format`: `n` 16-bit
/// integers, or `n` binary32 bit patterns, by bit 2.
pub open spec fn spec_analogs_ok(bytes: Seq<u8>, n: int, format: u16, r: PMUValues) -> bool {
    match r {
        PMUValues::Fixed(v) => {
            &&& format & 0x4 == 0
            &&& v@ =~= Seq::new(n as nat, |j: int| be16_at(bytes, 2 * j) as i16)
        },
        PMUValues::Float(v) => {
            &&& format & 0x4 != 0
            &&& v@ =~= Seq::new(n as nat, |j: int| be32_at(bytes, 4 * j))
        },
    }
}

/// Decodes the phasors of a raw phasor region.
fn phasors_of(bytes: &Vec<u8>, cfg: &PMUConfigurationFrame2011) -> (r: Vec<PhasorValue>)
    requires
        bytes@.len() == cfg.phnmr * spec_phasor_size(cfg.format),
    ensures
        r@.len() == cfg.phnmr,
        forall|j: int|
            0 <= j < r@.len() ==> r@[j] == spec_phasor_value(bytes@, j, cfg.format),
{
    let n = cfg.phnmr as usize;
    let psz = cfg.phasor_size();
    let total = bytes.len();
    let is_float = cfg.format & 0x2 != 0;
    let is_polar = cfg.format & 0x1 != 0;
    let mut r: Vec<PhasorValue> = Vec::new();
    let mut j: usize = 0;
    while j < n
        invariant
            j <= n,
            n == cfg.phnmr,
            psz == spec_phasor_size(cfg.format),
            total == bytes@.len(),
            total == n * psz,
            is_float == (cfg.format & 0x2 != 0),
            is_polar == (cfg.format & 0x1 != 0),
            r@.len() == j,
            forall|k: int|
                0 <= k < j ==> r@[k] == spec_phasor_value(bytes@, k, cfg.format),
        decreases n - j,
    {
        proof {
            assert((j + 1) * psz <= n * psz) by (nonlinear_arith)
                requires
                    j + 1 <= n,
                    0 <= psz,
            ;
        }
        let at = j * psz;
        let v = if is_float {
            let a = read_u32(bytes.as_slice(), at);
            let b = read_u32(bytes.as_slice(), at + 4);
            if is_polar {
                PhasorValue::FloatPolar(a, b)
            } else {
                PhasorValue::FloatRect(a, b)
            }
        } else {
            let a = read_u16(bytes.as_slice(), at);
            let b = #[verifier::truncate] (read_u16(bytes.as_slice(), at + 2) as i16);
            if is_polar {
                PhasorValue::IntPolar(a, b)
            } else {
                PhasorValue::IntRect(#[verifier::truncate] (a as i16), b)
            }
        };
        r.push(v);
        j = j + 1;
    }
    r
}

/// Decodes the analogs of a raw analog region.
fn analogs_of(bytes: &Vec<u8>, cfg: &PMUConfigurationFrame2011) -> (r: PMUValues)
    requires
        bytes@.len() == cfg.annmr * spec_analog_size(cfg.format),
    ensures
        spec_analogs_ok(bytes@, cfg.annmr as int, cfg.format, r),
{
    let n = cfg.annmr as usize;
    let total = bytes.len();
    if cfg.format & 0x4 != 0 {
        let mut v: Vec<u32> = Vec::new();
        let mut j: usize = 0;
        while j < n
            invariant
                j <= n,
                total == bytes@.len(),
                total == n * 4,
                v@ =~= Seq::new(j as nat, |k: int| be32_at(bytes@, 4 * k)),
            decreases n - j,
        {
            let x = read_u32(bytes.as_slice(), 4 * j);
            v.push(x);
            proof {
                assert(v@ =~= Seq::new((j + 1) as nat, |k: int| be32_at(bytes@, 4 * k)));
            }
            j = j + 1;
        }
        PMUValues::Float(v)
    } else {
        let mut v: Vec<i16> = Vec::new();
        let mut j: usize = 0;
        while j < n
            invariant
                j <= n,
                total == bytes@.len(),
                total == n * 2,
                v@ =~= Seq::new(j as nat, |k: int| be16_at(bytes@, 2 * k) as i16),
            decreases n - j,
        {
            let x = #[verifier::truncate] (read_u16(bytes.as_slice(), 2 * j) as i16);
            v.push(x);
            proof {
                assert(v@ =~= Seq::new((j + 1) as nat, |k: int| be16_at(bytes@, 2 * k) as i16));
            }
            j = j + 1;
        }
        PMUValues::Fixed(v)
    }
}

/// Decodes the digital words of a raw digital region.
fn digitals_of(bytes: &Vec<u8>) -> (r: Vec<u16>)
    ensures
        r@.len() == bytes@.len() / 2,
        forall|j: int| 0 <= j < r@.len() ==> r@[j] == be16_at(bytes@, 2 * j),
{
    let total = bytes.len();
    let n = total / 2;
    assert(2 * n <= total);
    let mut r: Vec<u16> = Vec::new();
    let mut j: usize = 0;
    while j < n
        invariant
            j <= n,
            n == bytes@.len() / 2,
            total == bytes@.len(),
            2 * n <= total,
            r@.len() == j,
            forall|k: int| 0 <= k < j ==> r@[k] == be16_at(bytes@, 2 * k),
        decreases n - j,
    {
        let x = read_u16(bytes.as_slice(), 2 * j);
        r.push(x);
        j = j + 1;
    }
    r
}

impl PMUDataFrameInt2011 {
    /// The phasors of this record, decoded under `cfg`'s format word.
    pub fn parse_phasors(&self, cfg: &PMUConfigurationFrame2011) -> (r: Vec<PhasorValue>)
        requires
            self.phasors@.len() == cfg.phnmr * spec_phasor_size(cfg.format),
        ensures
            r@.len() == cfg.phnmr,
            forall|j: int|
                0 <= j < r@.len() ==> r@[j] == spec_phasor_value(self.phasors@, j, cfg.format),
    {
        phasors_of(&self.phasors, cfg)
    }

    /// The analog values of this record, decoded under `cfg`'s format
    /// word.
    pub fn parse_analogs(&self, cfg: &PMUConfigurationFrame2011) -> (r: PMUValues)
        requires
            self.analog@.len() == cfg.annmr * spec_analog_size(cfg.format),
        ensures
            spec_analogs_ok(self.analog@, cfg.annmr as int, cfg.format, r),
    {
        analogs_of(&self.analog, cfg)
    }

    /// The digital status words of this record.
    pub fn parse_digitals(&self) -> (r: Vec<u16>)
        ensures
            r@.len() == self.digital@.len() / 2,
            forall|j: int| 0 <= j < r@.len() ==> r@[j] == be16_at(self.digital@, 2 * j),
    {
        digitals_of(&self.digital)
    }
}

impl PMUDataFrameFloat2011 {
    /// The phasors of this record, decoded under `cfg`'s format word.
    pub fn parse_phasors(&self, cfg: &PMUConfigurationFrame2011) -> (r: Vec<PhasorValue>)
        requires
            self.phasors@.len() == cfg.phnmr * spec_phasor_size(cfg.format),
        ensures
            r@.len() == cfg.phnmr,
            forall|j: int|
                0 <= j < r@.len() ==> r@[j] == spec_phasor_value(self.phasors@, j, cfg.format),
    {
        phasors_of(&self.phasors, cfg)
    }

    /// The analog values of this record, decoded under `cfg`'s format
    /// word.
    pub fn parse_analogs(&self, cfg: &PMUConfigurationFrame2011) -> (r: PMUValues)
        requires
            self.analog@.len() == cfg.annmr * spec_analog_size(cfg.format),
        ensures
            spec_analogs_ok(self.analog@, cfg.annmr as int, cfg.format, r),
    {
        analogs_of(&self.analog, cfg)
    }

    /// The digital status words of this record.
    pub fn parse_digitals(&self) -> (r: Vec<u16>)
        ensures
            r@.len() == self.digital@.len() / 2,
            forall|j: int| 0 <= j < r@.len() ==> r@[j] == be16_at(self.digital@, 2 * j),
    {
        digitals_of(&self.digital)
    }
}

} // verus!
