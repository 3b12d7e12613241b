//! Configuration-driven columnar projection: the flat column schema of
//! a configuration frame, and the extraction of typed arrays from a
//! buffer of concatenated data frames.

use vstd::prelude::*;

use crate::bytes_be::{be16_at, be32_at, read_u16, read_u32};
use crate::frame_parser::{
    spec_analog_size, spec_chan_count, spec_freq_size, spec_phasor_size, spec_record_size,
    spec_records_size, spec_data_frame_size, lemma_records_size_nonneg, lemma_records_size_split,
};
use crate::frames::{ConfigFrameView, ConfigurationFrame1and2_2011, PmuConfigView,
    PMUConfigurationFrame2011};
use crate::names::{
    build_col_name, push_name_bytes, spec_ascii_clean, spec_chars_of, spec_col_name,
    spec_trim_right,
};
use crate::accessors::spec_chan_window;

verus! {

/// The wire type of one column.
#[derive(Debug, Clone, Copy, PartialEq, Eq, Structural)]
pub enum ChannelDataType {
    Int16,
    UInt16,
    Float32,
    TimestampMicros,
}

/// One column of the schema: its fully-qualified name, its byte offset
/// within a data frame, its byte size, and its type.
#[derive(Debug, Clone, PartialEq)]
pub struct ChannelInfo {
    pub full_name: String,
    pub offset: usize,
    pub size: usize,
    pub data_type: ChannelDataType,
}

/// Mathematical image of a column.
pub ghost struct ChannelInfoView {
    pub name: Seq<char>,
    pub offset: int,
    pub size: int,
    pub data_type: ChannelDataType,
}

impl View for ChannelInfo {
    type V = ChannelInfoView;

    open spec fn view(&self) -> ChannelInfoView {
        ChannelInfoView {
            name: self.full_name@,
            offset: self.offset as int,
            size: self.size as int,
            data_type: self.data_type,
        }
    }
}

/// Views of a sequence of columns.
pub open spec fn spec_entry_views(v: Seq<ChannelInfo>) -> Seq<ChannelInfoView> {
    Seq::new(v.len(), |i: int| v[i]@)
}

/// The column type of phasor components under a format word.
pub open spec fn spec_phasor_type(format: u16) -> ChannelDataType {
    if format & 0x2 != 0 {
        ChannelDataType::Float32
    } else {
        ChannelDataType::Int16
    }
}

/// The column type of freq and dfreq under a format word.
pub open spec fn spec_freq_type(format: u16) -> ChannelDataType {
    if format & 0x8 != 0 {
        ChannelDataType::Float32
    } else {
        ChannelDataType::Int16
    }
}

/// The column type of analog values under a format word.
pub open spec fn spec_analog_type(format: u16) -> ChannelDataType {
    if format & 0x4 != 0 {
        ChannelDataType::Float32
    } else {
        ChannelDataType::Int16
    }
}

/// The byte form of the suffix `_STAT`.
pub open spec fn spec_stat_suffix() -> Seq<u8> {
    seq![95u8, 83u8, 84u8, 65u8, 84u8]
}

/// The byte form of the suffix `_FREQ`.
pub open spec fn spec_freq_suffix() -> Seq<u8> {
    seq![95u8, 70u8, 82u8, 69u8, 81u8]
}

/// The byte form of the suffix `_DFREQ`.
pub open spec fn spec_dfreq_suffix() -> Seq<u8> {
    seq![95u8, 68u8, 70u8, 82u8, 69u8, 81u8]
}

/// The suffix `_<channel name>` for the `i`-th name window.
pub open spec fn spec_chan_suffix(chnam: Seq<u8>, i: int) -> Seq<u8> {
    seq![95u8] + spec_ascii_clean(spec_trim_right(spec_chan_window(chnam, i)))
}

/// The suffix `_<channel name>_X` or `_<channel name>_Y` for phasor
/// component `half` of the `j`-th window.
pub open spec fn spec_xy_suffix(chnam: Seq<u8>, j: int, half: int) -> Seq<u8> {
    spec_chan_suffix(chnam, j) + seq![
        95u8,
        if half == 0 {
            88u8
        } else {
            89u8
        },
    ]
}

/// The name of the synthetic timestamp column.
pub open spec fn spec_timestamp_name() -> Seq<char> {
    spec_chars_of(seq![116u8, 105u8, 109u8, 101u8, 115u8, 116u8, 97u8, 109u8, 112u8])
}

/// The columns one PMU's record contributes, for a record that starts
/// at `start`: its status word, two components per phasor, freq and
/// dfreq, its analogs, and one column per bit name of each digital
/// word, each carrying the whole word.
pub open spec fn spec_pmu_entries(b: PmuConfigView, start: int) -> Seq<ChannelInfoView> {
    let psz = spec_phasor_size(b.format);
    let half = psz / 2;
    let fsz = spec_freq_size(b.format);
    let asz = spec_analog_size(b.format);
    let ph_at = start + 2;
    let freq_at = ph_at + b.phnmr * psz;
    let an_at = freq_at + 2 * fsz;
    let dg_at = an_at + b.annmr * asz;
    seq![
        ChannelInfoView {
            name: spec_col_name(b.stn, b.idcode, spec_stat_suffix()),
            offset: start,
            size: 2,
            data_type: ChannelDataType::UInt16,
        },
    ] + Seq::new(
        (2 * b.phnmr) as nat,
        |k: int|
            ChannelInfoView {
                name: spec_col_name(b.stn, b.idcode, spec_xy_suffix(b.chnam, k / 2, k % 2)),
                offset: ph_at + (k / 2) * psz + (k % 2) * half,
                size: half,
                data_type: spec_phasor_type(b.format),
            },
    ) + seq![
        ChannelInfoView {
            name: spec_col_name(b.stn, b.idcode, spec_freq_suffix()),
            offset: freq_at,
            size: fsz,
            data_type: spec_freq_type(b.format),
        },
        ChannelInfoView {
            name: spec_col_name(b.stn, b.idcode, spec_dfreq_suffix()),
            offset: freq_at + fsz,
            size: fsz,
            data_type: spec_freq_type(b.format),
        },
    ] + Seq::new(
        b.annmr as nat,
        |j: int|
            ChannelInfoView {
                name: spec_col_name(b.stn, b.idcode, spec_chan_suffix(b.chnam, b.phnmr + j)),
                offset: an_at + j * asz,
                size: asz,
                data_type: spec_analog_type(b.format),
            },
    ) + Seq::new(
        (16 * b.dgnmr) as nat,
        |k: int|
            ChannelInfoView {
                name: spec_col_name(
                    b.stn,
                    b.idcode,
                    spec_chan_suffix(b.chnam, b.phnmr + b.annmr + k),
                ),
                offset: dg_at + 2 * (k / 16),
                size: 2,
                data_type: ChannelDataType::UInt16,
            },
    )
}

/// The columns of all PMUs, records laid out one after another from
/// `start`.
pub open spec fn spec_pmu_maps(blocks: Seq<PmuConfigView>, start: int) -> Seq<ChannelInfoView>
    decreases blocks.len(),
{
    if blocks.len() == 0 {
        Seq::<ChannelInfoView>::empty()
    } else {
        spec_pmu_entries(blocks[0], start) + spec_pmu_maps(
            blocks.drop_first(),
            start + spec_record_size(blocks[0]),
        )
    }
}

/// The whole schema of a configuration: the synthetic timestamp column,
/// then every PMU's columns in configuration order. The first record
/// begins right after the 14-byte prefix.
pub open spec fn spec_channel_map(cfg: ConfigFrameView) -> Seq<ChannelInfoView> {
    seq![
        ChannelInfoView {
            name: spec_timestamp_name(),
            offset: 6,
            size: 8,
            data_type: ChannelDataType::TimestampMicros,
        },
    ] + spec_pmu_maps(cfg.pmu_configs, 14)
}

/// Every block's channel-name region has its full width.
pub open spec fn spec_cfg_names_wf(cfg: ConfigFrameView) -> bool {
    forall|i: int|
        0 <= i < cfg.pmu_configs.len() ==> (#[trigger] cfg.pmu_configs[i]).chnam.len() == 16
            * spec_chan_count(
            cfg.pmu_configs[i].phnmr,
            cfg.pmu_configs[i].annmr,
            cfg.pmu_configs[i].dgnmr,
        )
}

/// Builds the suffix `_<channel name>` for window `i`.
fn chan_suffix(chnam: &[u8], i: usize) -> (r: Vec<u8>)
    requires
        16 * i + 16 <= chnam@.len(),
    ensures
        r@ =~= spec_chan_suffix(chnam@, i as int),
        forall|k: int| 0 <= k < r@.len() ==> r@[k] < 0x80,
{
    let n = chnam.len();
    assert(16 * (i as int) + 16 <= n as int);
    let mut r: Vec<u8> = Vec::new();
    r.push(95);
    push_name_bytes(&mut r, chnam, 16 * i, 16);
    proof {
        crate::names::lemma_clean_is_ascii(
            spec_trim_right(chnam@.subrange(16 * i, 16 * i + 16)),
        );
    }
    r
}

/// The columns of one PMU whose record starts at `start`.
#[verifier::rlimit(60)]
#[verifier::spinoff_prover]
fn pmu_entries(b: &PMUConfigurationFrame2011, start: usize) -> (r: Vec<ChannelInfo>)
    requires
        b@.chnam.len() == 16 * spec_chan_count(b.phnmr, b.annmr, b.dgnmr),
        start + spec_record_size(b@) <= usize::MAX,
    ensures
        spec_entry_views(r@) =~= spec_pmu_entries(b@, start as int),
{
    let ghost target = spec_pmu_entries(b@, start as int);
    let ph: usize = b.phnmr as usize;
    let an: usize = b.annmr as usize;
    let dg: usize = b.dgnmr as usize;
    let psz = b.phasor_size();
    let half = psz / 2;
    let fsz = b.freq_dfreq_size();
    let asz = b.analog_size();
    let rsize = b.record_size();
    proof {
        assert(ph * psz <= 65535 * 8) by (nonlinear_arith)
            requires
                ph <= 65535,
                psz <= 8,
                0 <= ph,
                0 <= psz,
        ;
        assert(an * asz <= 65535 * 4) by (nonlinear_arith)
            requires
                an <= 65535,
                asz <= 4,
                0 <= an,
                0 <= asz,
        ;
    }
    let ph_at = start + 2;
    let freq_at = ph_at + ph * psz;
    let an_at = freq_at + 2 * fsz;
    let dg_at = an_at + an * asz;
    let chnam = b.chnam.as_slice();
    let stn = b.stn.as_slice();
    let mut r: Vec<ChannelInfo> = Vec::new();

    let mut stat_suffix: Vec<u8> = Vec::new();
    stat_suffix.push(95);
    stat_suffix.push(83);
    stat_suffix.push(84);
    stat_suffix.push(65);
    stat_suffix.push(84);
    proof {
        assert(stat_suffix@ =~= spec_stat_suffix());
    }
    let name = build_col_name(stn, b.idcode, &stat_suffix);
    r.push(ChannelInfo { full_name: name, offset: start, size: 2, data_type: ChannelDataType::UInt16 });
    let ghost seg0 = target.subrange(0, 1);
    proof {
        assert(spec_entry_views(r@) =~= target.subrange(0, 1));
    }

    let is_ph_float = b.format & 0x2 != 0;
    let mut j: usize = 0;
    while j < ph
        invariant
            j <= ph,
            ph == b.phnmr,
            psz == spec_phasor_size(b.format),
            half == psz / 2,
            ph_at == start + 2,
            start + spec_record_size(b@) <= usize::MAX,
            ph * psz <= 65535 * 8,
            spec_record_size(b@) >= 2 + ph * psz,
            b@.chnam.len() == 16 * spec_chan_count(b.phnmr, b.annmr, b.dgnmr),
            chnam@ == b@.chnam,
            stn@ == b@.stn,
            is_ph_float == (b.format & 0x2 != 0),
            target == spec_pmu_entries(b@, start as int),
            spec_entry_views(r@) =~= target.subrange(0, 1 + 2 * j),
        decreases ph - j,
    {
        proof {
            assert(j * psz + psz <= ph * psz && (j + 1) * psz == j * psz + psz) by (nonlinear_arith)
                requires
                    j + 1 <= ph,
                    0 <= psz,
                    0 <= j,
            ;
            assert(half <= psz);
            assert((2 * j as int) / 2 == j as int && (2 * j as int) % 2 == 0 && (2 * j as int + 1)
                / 2 == j as int && (2 * j as int + 1) % 2 == 1) by (nonlinear_arith);
        }
        let mut suffix_x = chan_suffix(chnam, j);
        suffix_x.push(95);
        suffix_x.push(88);
        let mut suffix_y = chan_suffix(chnam, j);
        suffix_y.push(95);
        suffix_y.push(89);
        proof {
            assert(suffix_x@ =~= spec_xy_suffix(b@.chnam, j as int, 0));
            assert(suffix_y@ =~= spec_xy_suffix(b@.chnam, j as int, 1));
        }
        let name_x = build_col_name(stn, b.idcode, &suffix_x);
        let name_y = build_col_name(stn, b.idcode, &suffix_y);
        let dtype = if is_ph_float {
            ChannelDataType::Float32
        } else {
            ChannelDataType::Int16
        };
        r.push(ChannelInfo { full_name: name_x, offset: ph_at + j * psz, size: half, data_type: dtype });
        r.push(
            ChannelInfo {
                full_name: name_y,
                offset: ph_at + j * psz + half,
                size: half,
                data_type: dtype,
            },
        );
        proof {
            assert(target.subrange(0, 1 + 2 * j).push(target[1 + 2 * j]).push(
                target[1 + 2 * j + 1],
            ) =~= target.subrange(0, 1 + 2 * (j + 1)));
            assert(spec_entry_views(r@) =~= target.subrange(0, 1 + 2 * (j + 1)));
        }
        j = j + 1;
    }

    let fq_dtype = if b.format & 0x8 != 0 {
        ChannelDataType::Float32
    } else {
        ChannelDataType::Int16
    };
    let mut freq_suffix: Vec<u8> = Vec::new();
    freq_suffix.push(95);
    freq_suffix.push(70);
    freq_suffix.push(82);
    freq_suffix.push(69);
    freq_suffix.push(81);
    proof {
        assert(freq_suffix@ =~= spec_freq_suffix());
    }
    let freq_name = build_col_name(stn, b.idcode, &freq_suffix);
    let mut dfreq_suffix: Vec<u8> = Vec::new();
    dfreq_suffix.push(95);
    dfreq_suffix.push(68);
    dfreq_suffix.push(70);
    dfreq_suffix.push(82);
    dfreq_suffix.push(69);
    dfreq_suffix.push(81);
    proof {
        assert(dfreq_suffix@ =~= spec_dfreq_suffix());
    }
    let dfreq_name = build_col_name(stn, b.idcode, &dfreq_suffix);
    r.push(ChannelInfo { full_name: freq_name, offset: freq_at, size: fsz, data_type: fq_dtype });
    r.push(
        ChannelInfo { full_name: dfreq_name, offset: freq_at + fsz, size: fsz, data_type: fq_dtype },
    );
    proof {
        assert(target.subrange(0, 1 + 2 * ph).push(target[1 + 2 * ph]).push(target[1 + 2 * ph + 1])
            =~= target.subrange(0, 3 + 2 * ph));
        assert(spec_entry_views(r@) =~= target.subrange(0, 3 + 2 * ph));
    }

    let is_an_float = b.format & 0x4 != 0;
    let mut j: usize = 0;
    while j < an
        invariant
            j <= an,
            ph == b.phnmr,
            an == b.annmr,
            asz == spec_analog_size(b.format),
            an_at == start + 2 + ph * psz + 2 * fsz,
            psz == spec_phasor_size(b.format),
            fsz == spec_freq_size(b.format),
            start + spec_record_size(b@) <= usize::MAX,
            an * asz <= 65535 * 4,
            spec_record_size(b@) >= 2 + ph * psz + 2 * fsz + an * asz,
            b@.chnam.len() == 16 * spec_chan_count(b.phnmr, b.annmr, b.dgnmr),
            chnam@ == b@.chnam,
            stn@ == b@.stn,
            is_an_float == (b.format & 0x4 != 0),
            target == spec_pmu_entries(b@, start as int),
            spec_entry_views(r@) =~= target.subrange(0, 3 + 2 * ph + j),
        decreases an - j,
    {
        proof {
            assert(j * asz + asz <= an * asz && (j + 1) * asz == j * asz + asz) by (nonlinear_arith)
                requires
                    j + 1 <= an,
                    0 <= asz,
                    0 <= j,
            ;
        }
        let suffix = chan_suffix(chnam, ph + j);
        let name = build_col_name(stn, b.idcode, &suffix);
        let dtype = if is_an_float {
            ChannelDataType::Float32
        } else {
            ChannelDataType::Int16
        };
        r.push(ChannelInfo { full_name: name, offset: an_at + j * asz, size: asz, data_type: dtype });
        proof {
            assert(target.subrange(0, 3 + 2 * ph + j).push(target[3 + 2 * ph + j]) =~= target.subrange(
                0,
                3 + 2 * ph + (j + 1),
            ));
            assert(spec_entry_views(r@) =~= target.subrange(0, 3 + 2 * ph + (j + 1)));
        }
        j = j + 1;
    }

    let dig_total = 16 * dg;
    let mut k: usize = 0;
    while k < dig_total
        invariant
            k <= dig_total,
            dig_total == 16 * dg,
            ph == b.phnmr,
            an == b.annmr,
            dg == b.dgnmr,
            dg_at == start + 2 + ph * psz + 2 * fsz + an * asz,
            psz == spec_phasor_size(b.format),
            fsz == spec_freq_size(b.format),
            asz == spec_analog_size(b.format),
            start + spec_record_size(b@) <= usize::MAX,
            spec_record_size(b@) == 2 + ph * psz + 2 * fsz + an * asz + 2 * dg,
            b@.chnam.len() == 16 * spec_chan_count(b.phnmr, b.annmr, b.dgnmr),
            chnam@ == b@.chnam,
            stn@ == b@.stn,
            target == spec_pmu_entries(b@, start as int),
            spec_entry_views(r@) =~= target.subrange(0, 3 + 2 * ph + an + k),
        decreases dig_total - k,
    {
        let suffix = chan_suffix(chnam, ph + an + k);
        let name = build_col_name(stn, b.idcode, &suffix);
        proof {
            assert(2 * ((k as int) / 16) + 2 <= 2 * dg) by (nonlinear_arith)
                requires
                    0 <= k < 16 * (dg as int),
            ;
        }
        r.push(
            ChannelInfo {
                full_name: name,
                offset: dg_at + 2 * (k / 16),
                size: 2,
                data_type: ChannelDataType::UInt16,
            },
        );
        proof {
            assert(target.subrange(0, 3 + 2 * ph + an + k).push(target[3 + 2 * ph + an + k])
                =~= target.subrange(0, 3 + 2 * ph + an + (k + 1)));
            assert(spec_entry_views(r@) =~= target.subrange(0, 3 + 2 * ph + an + (k + 1)));
        }
        k = k + 1;
    }
    proof {
        assert(target.subrange(0, 3 + 2 * ph + an + 16 * dg) =~= target);
    }
    r
}

impl ConfigurationFrame1and2_2011 {
    /// The flat column schema of this configuration: the synthetic
    /// timestamp column, then every PMU's columns in order, with byte
    /// offsets laid out cumulatively from the first record at offset 14.
    pub fn get_channel_map(&self) -> (r: Vec<ChannelInfo>)
        requires
            spec_cfg_names_wf(self@),
            spec_data_frame_size(self@) <= usize::MAX,
        ensures
            spec_entry_views(r@) =~= spec_channel_map(self@),
    {
        let ghost all = self@.pmu_configs;
        let mut r: Vec<ChannelInfo> = Vec::new();
        let mut ts_bytes: Vec<u8> = Vec::new();
        ts_bytes.push(116);
        ts_bytes.push(105);
        ts_bytes.push(109);
        ts_bytes.push(101);
        ts_bytes.push(115);
        ts_bytes.push(116);
        ts_bytes.push(97);
        ts_bytes.push(109);
        ts_bytes.push(112);
        proof {
            assert(ts_bytes@ =~= seq![116u8, 105u8, 109u8, 101u8, 115u8, 116u8, 97u8, 109u8, 112u8]);
        }
        let ts_name = crate::names::ascii_string(ts_bytes);
        r.push(
            ChannelInfo {
                full_name: ts_name,
                offset: 6,
                size: 8,
                data_type: ChannelDataType::TimestampMicros,
            },
        );
        let mut start: usize = 14;
        let mut i: usize = 0;
        proof {
            assert(all.skip(0) =~= all);
            assert(spec_entry_views(r@) + spec_pmu_maps(all, 14) =~= spec_channel_map(self@));
        }
        while i < self.pmu_configs.len()
            invariant
                i <= self.pmu_configs@.len(),
                all == self@.pmu_configs,
                all.len() == self.pmu_configs@.len(),
                spec_cfg_names_wf(self@),
                spec_data_frame_size(self@) <= usize::MAX,
                start == 14 + spec_records_size(all.take(i as int)),
                spec_entry_views(r@) + spec_pmu_maps(all.skip(i as int), start as int)
                    =~= spec_channel_map(self@),
            decreases self.pmu_configs@.len() - i,
        {
            let b = &self.pmu_configs[i];
            proof {
                lemma_records_size_split(all, i as int);
                lemma_records_size_split(all.skip(i as int), 1);
                assert(all.skip(i as int).take(1) =~= seq![all[i as int]]);
                assert(spec_records_size(seq![all[i as int]]) == spec_record_size(all[i as int]));
                assert(all.skip(i as int).skip(1) =~= all.skip(i + 1));
                lemma_records_size_nonneg(all.skip(i + 1));
            }
            let mut entries = pmu_entries(b, start);
            let ghost pre = r@;
            r.append(&mut entries);
            proof {
                assert(all.skip(i as int)[0] == all[i as int]);
                assert(all.skip(i as int).drop_first() =~= all.skip(i + 1));
                assert(spec_entry_views(r@) =~= spec_entry_views(pre) + spec_pmu_entries(
                    all[i as int],
                    start as int,
                ));
                lemma_records_size_split(all.take(i + 1), i as int);
                assert(all.take(i + 1).take(i as int) =~= all.take(i as int));
                assert(all.take(i + 1).skip(i as int) =~= seq![all[i as int]]);
            }
            start = start + b.record_size();
            i = i + 1;
        }
        proof {
            assert(all.skip(all.len() as int) =~= Seq::<PmuConfigView>::empty());
            assert(spec_entry_views(r@) + Seq::<ChannelInfoView>::empty() =~= spec_entry_views(r@));
        }
        r
    }
}

// ---------------------------------------------------------------------
// Laws of the schema
// ---------------------------------------------------------------------
/// Number of columns the blocks contribute: per PMU, one status column,
/// two per phasor, freq and dfreq, one per analog, sixteen per digital
/// word.
pub open spec fn spec_column_count(blocks: Seq<PmuConfigView>) -> int
    decreases blocks.len(),
{
    if blocks.len() == 0 {
        0
    } else {
        1 + 2 * blocks[0].phnmr + 2 + blocks[0].annmr + 16 * blocks[0].dgnmr + spec_column_count(
            blocks.drop_first(),
        )
    }
}

proof fn lemma_pmu_maps_count(blocks: Seq<PmuConfigView>, start: int)
    ensures
        spec_pmu_maps(blocks, start).len() == spec_column_count(blocks),
    decreases blocks.len(),
{
    if blocks.len() > 0 {
        lemma_pmu_maps_count(blocks.drop_first(), start + spec_record_size(blocks[0]));
    }
}

/// The column-count law: a configuration's schema holds exactly one
/// timestamp column plus, summed over its PMUs, one status column, two
/// columns per phasor, freq and dfreq, one column per analog, and
/// sixteen columns per digital word.
pub proof fn lemma_channel_map_count(cfg: ConfigFrameView)
    ensures
        spec_channel_map(cfg).len() == 1 + spec_column_count(cfg.pmu_configs),
{
    lemma_pmu_maps_count(cfg.pmu_configs, 14);
}

/// Every column of one PMU's record lies inside that record.
proof fn lemma_pmu_entries_within(b: PmuConfigView, start: int)
    ensures
        forall|k: int|
            0 <= k < spec_pmu_entries(b, start).len() ==> {
                let e = #[trigger] spec_pmu_entries(b, start)[k];
                start <= e.offset && e.offset + e.size <= start + spec_record_size(b)
            },
{
    let entries = spec_pmu_entries(b, start);
    let psz = spec_phasor_size(b.format);
    let half = psz / 2;
    let fsz = spec_freq_size(b.format);
    let asz = spec_analog_size(b.format);
    let ph: int = b.phnmr as int;
    let an: int = b.annmr as int;
    let dg: int = b.dgnmr as int;
    assert(ph * psz >= 0 && an * asz >= 0) by (nonlinear_arith)
        requires
            ph >= 0,
            psz >= 0,
            an >= 0,
            asz >= 0,
    ;
    assert forall|k: int| 0 <= k < entries.len() implies {
        let e = #[trigger] entries[k];
        start <= e.offset && e.offset + e.size <= start + spec_record_size(b)
    } by {
        if k == 0 {
        } else if k < 1 + 2 * ph {
            let kk = k - 1;
            let j = kk / 2;
            let h = kk % 2;
            assert(0 <= j && j < ph && 0 <= h <= 1 && kk == 2 * j + h) by (nonlinear_arith)
                requires
                    0 <= kk < 2 * ph,
                    j == kk / 2,
                    h == kk % 2,
            ;
            assert(2 * half <= psz);
            assert(j * psz + h * half + half <= ph * psz) by (nonlinear_arith)
                requires
                    0 <= j < ph,
                    0 <= h <= 1,
                    0 <= psz,
                    2 * half <= psz,
                    0 <= half,
            ;
            assert(j * psz + h * half >= 0) by (nonlinear_arith)
                requires
                    0 <= j,
                    0 <= h,
                    0 <= psz,
                    0 <= half,
            ;
        } else if k < 3 + 2 * ph {
        } else if k < 3 + 2 * ph + an {
            let j = k - (3 + 2 * ph);
            assert(j * asz + asz <= an * asz && 0 <= j * asz) by (nonlinear_arith)
                requires
                    0 <= j < an,
                    0 <= asz,
            ;
        } else {
            let kk = k - (3 + 2 * ph + an);
            assert(0 <= 2 * (kk / 16) && 2 * (kk / 16) + 2 <= 2 * dg) by (nonlinear_arith)
                requires
                    0 <= kk < 16 * dg,
            ;
        }
    }
}

/// Every column of a sequence of records lies inside the region the
/// records occupy.
proof fn lemma_pmu_maps_within(blocks: Seq<PmuConfigView>, start: int)
    ensures
        forall|k: int|
            0 <= k < spec_pmu_maps(blocks, start).len() ==> {
                let e = #[trigger] spec_pmu_maps(blocks, start)[k];
                start <= e.offset && e.offset + e.size <= start + spec_records_size(blocks)
            },
    decreases blocks.len(),
{
    if blocks.len() > 0 {
        let head = spec_pmu_entries(blocks[0], start);
        let rsize = spec_record_size(blocks[0]);
        lemma_pmu_entries_within(blocks[0], start);
        lemma_pmu_maps_within(blocks.drop_first(), start + rsize);
        lemma_records_size_nonneg(blocks.drop_first());
        assert(rsize >= 0) by {
            lemma_records_size_nonneg(blocks);
            lemma_records_size_nonneg(blocks.drop_first());
        }
        assert forall|k: int| 0 <= k < spec_pmu_maps(blocks, start).len() implies {
            let e = #[trigger] spec_pmu_maps(blocks, start)[k];
            start <= e.offset && e.offset + e.size <= start + spec_records_size(blocks)
        } by {
            if k < head.len() {
                assert(spec_pmu_maps(blocks, start)[k] == head[k]);
            } else {
                assert(spec_pmu_maps(blocks, start)[k] == spec_pmu_maps(
                    blocks.drop_first(),
                    start + rsize,
                )[k - head.len()]);
            }
        }
    }
}

/// The bounds law: every column of a configuration's schema lies inside
/// a data frame of the size that configuration prescribes.
pub proof fn lemma_channel_map_within(cfg: ConfigFrameView)
    ensures
        forall|k: int|
            0 <= k < spec_channel_map(cfg).len() ==> {
                let e = #[trigger] spec_channel_map(cfg)[k];
                0 <= e.offset && e.offset + e.size <= spec_data_frame_size(cfg)
            },
{
    lemma_pmu_maps_within(cfg.pmu_configs, 14);
    lemma_records_size_nonneg(cfg.pmu_configs);
    assert forall|k: int| 0 <= k < spec_channel_map(cfg).len() implies {
        let e = #[trigger] spec_channel_map(cfg)[k];
        0 <= e.offset && e.offset + e.size <= spec_data_frame_size(cfg)
    } by {
        if k > 0 {
            assert(spec_channel_map(cfg)[k] == spec_pmu_maps(cfg.pmu_configs, 14)[k - 1]);
        }
    }
}

// ---------------------------------------------------------------------
// Columnar extraction
// ---------------------------------------------------------------------
/// One extracted column: a typed array with one element per frame.
/// Float values are IEEE 754 binary32 bit patterns; timestamps are UTC
/// microseconds since the Unix epoch.
#[derive(Debug, Clone, PartialEq)]
pub enum ColumnData {
    Int16(Vec<i16>),
    UInt16(Vec<u16>),
    Float32Bits(Vec<u32>),
    TimestampMicros(Vec<i64>),
}

/// The timestamp of one frame in microseconds: the whole seconds, plus
/// the 24-bit fraction scaled by the 24 meaningful bits of the time
/// base, rounded to the nearest microsecond (half up).
pub open spec fn spec_timestamp_us(soc: u32, fracsec: u32, time_base: u32) -> int {
    soc * 1_000_000 + ((fracsec & 0xFFFFFF) * 1_000_000 + (time_base & 0xFFFFFF) / 2) / ((
    time_base & 0xFFFFFF) as int)
}

/// Extracts one scalar channel from a buffer of concatenated frames:
/// one big-endian value per frame, read at the channel's offset. The
/// buffer holds `buffer.len() / frame_size` whole frames; trailing
/// bytes are ignored.
pub fn extract_channel_values(buffer: &[u8], frame_size: usize, info: &ChannelInfo) -> (r:
    ColumnData)
    requires
        1 <= frame_size,
        info@.offset + info@.size <= frame_size,
        info.data_type == ChannelDataType::Int16 || info.data_type == ChannelDataType::UInt16
            ==> info@.size == 2,
        info.data_type == ChannelDataType::Float32 ==> info@.size == 4,
        info.data_type != ChannelDataType::TimestampMicros,
    ensures
        ({
            let n = buffer@.len() as int / frame_size as int;
            match r {
                ColumnData::Int16(v) => info.data_type == ChannelDataType::Int16 && v@.len() == n
                    && forall|i: int|
                    0 <= i < n ==> v@[i] == be16_at(buffer@, i * frame_size + info@.offset) as i16,
                ColumnData::UInt16(v) => info.data_type == ChannelDataType::UInt16 && v@.len() == n
                    && forall|i: int|
                    0 <= i < n ==> v@[i] == be16_at(buffer@, i * frame_size + info@.offset),
                ColumnData::Float32Bits(v) => info.data_type == ChannelDataType::Float32
                    && v@.len() == n && forall|i: int|
                    0 <= i < n ==> v@[i] == be32_at(buffer@, i * frame_size + info@.offset),
                ColumnData::TimestampMicros(_) => false,
            }
        }),
{
    let total = buffer.len();
    let n = total / frame_size;
    let fs = frame_size;
    proof {
        assert(n * fs <= total && (n as int) == total as int / fs as int) by (nonlinear_arith)
            requires
                n == total as int / fs as int,
                1 <= fs,
                0 <= total,
        ;
    }
    match info.data_type {
        ChannelDataType::Int16 => {
            let mut v: Vec<i16> = Vec::new();
            let mut i: usize = 0;
            while i < n
                invariant
                    i <= n,
                    n * fs <= total,
                    total == buffer@.len(),
                    1 <= fs,
                    info@.offset + info@.size <= fs,
                    info@.size == 2,
                    v@.len() == i,
                    forall|k: int|
                        0 <= k < i ==> v@[k] == be16_at(buffer@, k * fs + info@.offset) as i16,
                decreases n - i,
            {
                proof {
                    assert(i * fs + fs <= n * fs) by (nonlinear_arith)
                        requires
                            i < n,
                            0 <= i,
                            1 <= fs,
                    ;
                }
                let x = #[verifier::truncate] (read_u16(buffer, i * fs + info.offset) as i16);
                v.push(x);
                i = i + 1;
            }
            ColumnData::Int16(v)
        },
        ChannelDataType::UInt16 => {
            let mut v: Vec<u16> = Vec::new();
            let mut i: usize = 0;
            while i < n
                invariant
                    i <= n,
                    n * fs <= total,
                    total == buffer@.len(),
                    1 <= fs,
                    info@.offset + info@.size <= fs,
                    info@.size == 2,
                    v@.len() == i,
                    forall|k: int| 0 <= k < i ==> v@[k] == be16_at(buffer@, k * fs + info@.offset),
                decreases n - i,
            {
                proof {
                    assert(i * fs + fs <= n * fs) by (nonlinear_arith)
                        requires
                            i < n,
                            0 <= i,
                            1 <= fs,
                    ;
                }
                let x = read_u16(buffer, i * fs + info.offset);
                v.push(x);
                i = i + 1;
            }
            ColumnData::UInt16(v)
        },
        ChannelDataType::Float32 => {
            let mut v: Vec<u32> = Vec::new();
            let mut i: usize = 0;
            while i < n
                invariant
                    i <= n,
                    n * fs <= total,
                    total == buffer@.len(),
                    1 <= fs,
                    info@.offset + info@.size <= fs,
                    info@.size == 4,
                    v@.len() == i,
                    forall|k: int| 0 <= k < i ==> v@[k] == be32_at(buffer@, k * fs + info@.offset),
                decreases n - i,
            {
                proof {
                    assert(i * fs + fs <= n * fs) by (nonlinear_arith)
                        requires
                            i < n,
                            0 <= i,
                            1 <= fs,
                    ;
                }
                let x = read_u32(buffer, i * fs + info.offset);
                v.push(x);
                i = i + 1;
            }
            ColumnData::Float32Bits(v)
        },
        ChannelDataType::TimestampMicros => {
            ColumnData::TimestampMicros(Vec::new())
        },
    }
}

/// Extracts the timestamp of every frame in the buffer, in UTC
/// microseconds: seconds of century at offset 6 scaled to microseconds,
/// plus the masked 24-bit fraction scaled by the time base.
pub fn extract_timestamps(buffer: &[u8], frame_size: usize, time_base: u32) -> (r: Vec<i64>)
    requires
        14 <= frame_size,
        time_base & 0xFFFFFF != 0,
    ensures
        r@.len() == buffer@.len() as int / frame_size as int,
        forall|i: int|
            0 <= i < r@.len() ==> r@[i] == spec_timestamp_us(
                be32_at(buffer@, i * frame_size + 6),
                be32_at(buffer@, i * frame_size + 10),
                time_base,
            ),
{
    let total = buffer.len();
    let n = total / frame_size;
    let fs = frame_size;
    let tb_masked = time_base & 0xFFFFFF;
    let tb = tb_masked as u64;
    proof {
        assert(n * fs <= total && (n as int) == total as int / fs as int) by (nonlinear_arith)
            requires
                n == total as int / fs as int,
                1 <= fs,
                0 <= total,
        ;
        assert(time_base & 0xFFFFFF <= 0xFFFFFF) by (bit_vector);
    }
    let mut r: Vec<i64> = Vec::new();
    let mut i: usize = 0;
    while i < n
        invariant
            i <= n,
            n * fs <= total,
            total == buffer@.len(),
            14 <= fs,
            tb == time_base & 0xFFFFFF,
            1 <= tb <= 0xFFFFFF,
            r@.len() == i,
            forall|k: int|
                0 <= k < i ==> r@[k] == spec_timestamp_us(
                    be32_at(buffer@, k * fs + 6),
                    be32_at(buffer@, k * fs + 10),
                    time_base,
                ),
        decreases n - i,
    {
        proof {
            assert(i * fs + fs <= n * fs) by (nonlinear_arith)
                requires
                    i < n,
                    0 <= i,
                    1 <= fs,
            ;
        }
        let soc = read_u32(buffer, i * fs + 6);
        let frac_raw = read_u32(buffer, i * fs + 10);
        let frac = frac_raw & 0xFFFFFF;
        proof {
            assert(frac_raw & 0xFFFFFF <= 0xFFFFFF) by (bit_vector);
        }
        let d = (frac as u64) * 1_000_000 + tb / 2;
        proof {
            assert(d as int / tb as int <= d as int) by (nonlinear_arith)
                requires
                    1 <= tb as int,
                    0 <= d as int,
            ;
        }
        let scaled = d / tb;
        let us = (soc as u64) * 1_000_000 + scaled;
        r.push(us as i64);
        i = i + 1;
    }
    r
}

} // verus!
