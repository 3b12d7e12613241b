//! Derived views over a per-PMU configuration block: station and
//! channel names and fully-qualified column names.

use vstd::prelude::*;

use crate::frame_parser::spec_chan_count;
use crate::frames::PMUConfigurationFrame2011;
use crate::names::{build_fq_name, build_window_text, spec_fq_name, spec_window_text};

verus! {

/// The `i`-th 16-byte channel-name window.
pub open spec fn spec_chan_window(chnam: Seq<u8>, i: int) -> Seq<u8> {
    chnam.subrange(16 * i, 16 * i + 16)
}

impl PMUConfigurationFrame2011 {
    /// The station name: the 16-byte `stn` field with its right padding
    /// trimmed.
    pub fn station_name(&self) -> (r: String)
        ensures
            r@ == spec_window_text(self@.stn),
    {
        let r = build_window_text(self.stn.as_slice(), 0);
        proof {
            assert(self.stn@.subrange(0, 16) =~= self.stn@);
        }
        r
    }

    /// All channel names in wire order: one per phasor, one per analog,
    /// sixteen per digital word, each trimmed of its right padding.
    pub fn channel_names(&self) -> (r: Vec<String>)
        requires
            self@.chnam.len() == 16 * spec_chan_count(self.phnmr, self.annmr, self.dgnmr),
        ensures
            r@.len() == spec_chan_count(self.phnmr, self.annmr, self.dgnmr),
            forall|i: int|
                0 <= i < r@.len() ==> (#[trigger] r@[i])@ == spec_window_text(
                    spec_chan_window(self@.chnam, i),
                ),
    {
        let count: usize = self.phnmr as usize + self.annmr as usize + 16 * (self.dgnmr as usize);
        let total = self.chnam.len();
        let mut r: Vec<String> = Vec::new();
        let mut i: usize = 0;
        while i < count
            invariant
                i <= count,
                total == self@.chnam.len(),
                self@.chnam.len() == 16 * count,
                r@.len() == i,
                forall|k: int|
                    0 <= k < i ==> (#[trigger] r@[k])@ == spec_window_text(
                        spec_chan_window(self@.chnam, k),
                    ),
            decreases count - i,
        {
            let name = build_window_text(self.chnam.as_slice(), 16 * i);
            r.push(name);
            i = i + 1;
        }
        r
    }

    /// Fully-qualified phasor column names, one per phasor:
    /// `<station>_<idcode>_<name>`.
    pub fn get_phasor_columns(&self) -> (r: Vec<String>)
        requires
            self@.chnam.len() == 16 * spec_chan_count(self.phnmr, self.annmr, self.dgnmr),
        ensures
            r@.len() == self.phnmr,
            forall|j: int|
                0 <= j < r@.len() ==> (#[trigger] r@[j])@ == spec_fq_name(
                    self@.stn,
                    self.idcode,
                    spec_chan_window(self@.chnam, j),
                ),
    {
        let count: usize = self.phnmr as usize;
        let total = self.chnam.len();
        let mut r: Vec<String> = Vec::new();
        let mut j: usize = 0;
        while j < count
            invariant
                j <= count,
                count == self.phnmr,
                total == self@.chnam.len(),
                self@.chnam.len() == 16 * spec_chan_count(self.phnmr, self.annmr, self.dgnmr),
                r@.len() == j,
                forall|k: int|
                    0 <= k < j ==> (#[trigger] r@[k])@ == spec_fq_name(
                        self@.stn,
                        self.idcode,
                        spec_chan_window(self@.chnam, k),
                    ),
            decreases count - j,
        {
            let name = build_fq_name(self.stn.as_slice(), self.idcode, self.chnam.as_slice(), 16
                * j);
            r.push(name);
            j = j + 1;
        }
        r
    }

    /// Fully-qualified analog column names, one per analog value; the
    /// analog name windows follow the phasor windows.
    pub fn get_analog_columns(&self) -> (r: Vec<String>)
        requires
            self@.chnam.len() == 16 * spec_chan_count(self.phnmr, self.annmr, self.dgnmr),
        ensures
            r@.len() == self.annmr,
            forall|j: int|
                0 <= j < r@.len() ==> (#[trigger] r@[j])@ == spec_fq_name(
                    self@.stn,
                    self.idcode,
                    spec_chan_window(self@.chnam, self.phnmr + j),
                ),
    {
        let count: usize = self.annmr as usize;
        let base: usize = self.phnmr as usize;
        let total = self.chnam.len();
        let mut r: Vec<String> = Vec::new();
        let mut j: usize = 0;
        while j < count
            invariant
                j <= count,
                count == self.annmr,
                base == self.phnmr,
                total == self@.chnam.len(),
                self@.chnam.len() == 16 * spec_chan_count(self.phnmr, self.annmr, self.dgnmr),
                r@.len() == j,
                forall|k: int|
                    0 <= k < j ==> (#[trigger] r@[k])@ == spec_fq_name(
                        self@.stn,
                        self.idcode,
                        spec_chan_window(self@.chnam, self.phnmr + k),
                    ),
            decreases count - j,
        {
            let name = build_fq_name(self.stn.as_slice(), self.idcode, self.chnam.as_slice(), 16
                * (base + j));
            r.push(name);
            j = j + 1;
        }
        r
    }

    /// Fully-qualified digital column names, one per digital word: the
    /// name of the word's first bit channel. Each digital word owns
    /// sixteen bit-name windows after the phasor and analog windows.
    pub fn get_digital_columns(&self) -> (r: Vec<String>)
        requires
            self@.chnam.len() == 16 * spec_chan_count(self.phnmr, self.annmr, self.dgnmr),
        ensures
            r@.len() == self.dgnmr,
            forall|d: int|
                0 <= d < r@.len() ==> (#[trigger] r@[d])@ == spec_fq_name(
                    self@.stn,
                    self.idcode,
                    spec_chan_window(self@.chnam, self.phnmr + self.annmr + 16 * d),
                ),
    {
        let count: usize = self.dgnmr as usize;
        let base: usize = self.phnmr as usize + self.annmr as usize;
        let total = self.chnam.len();
        let mut r: Vec<String> = Vec::new();
        let mut d: usize = 0;
        while d < count
            invariant
                d <= count,
                count == self.dgnmr,
                base == self.phnmr + self.annmr,
                total == self@.chnam.len(),
                self@.chnam.len() == 16 * spec_chan_count(self.phnmr, self.annmr, self.dgnmr),
                r@.len() == d,
                forall|k: int|
                    0 <= k < d ==> (#[trigger] r@[k])@ == spec_fq_name(
                        self@.stn,
                        self.idcode,
                        spec_chan_window(self@.chnam, self.phnmr + self.annmr + 16 * k),
                    ),
            decreases count - d,
        {
            let name = build_fq_name(self.stn.as_slice(), self.idcode, self.chnam.as_slice(), 16
                * (base + 16 * d));
            r.push(name);
            d = d + 1;
        }
        r
    }
}

} // verus!
