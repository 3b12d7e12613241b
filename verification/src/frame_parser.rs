//! Parsers for configuration frames 1/2 and for data frames. Each
//! parser is specified by a mathematical parser over the byte sequence;
//! the executable walk is proved to return exactly its result.

use vstd::prelude::*;

use crate::bytes_be::{be16_at, be32_at, copy_range, read_u16, read_u32};
use crate::crc::{calculate_crc, crc16};
use crate::errors::ParseError;
use crate::frames::{
    spec_frame_type_bits, spec_prefix_of, ConfigFrameView, ConfigurationFrame1and2_2011,
    DataFrame2011, DataFrameType, DataFrameView, DataRecordView, PMUConfigurationFrame2011,
    PMUDataFrameFloat2011, PMUDataFrameInt2011, PmuConfigView, PmuDataFloatView, PmuDataIntView,
    PrefixFrame2011,
};

verus! {

/// Number of 16-byte channel-name windows of a block: one per phasor,
/// one per analog, sixteen per digital word.
pub open spec fn spec_chan_count(ph: u16, an: u16, dg: u16) -> int {
    ph + an + 16 * dg
}

/// Total byte size of a per-PMU configuration block with the given
/// channel counts: 26 bytes of fixed fields before the names, the
/// names, one 4-byte unit word per channel, then fnom and cfgcnt.
pub open spec fn spec_block_size(ph: u16, an: u16, dg: u16) -> int {
    30 + 16 * spec_chan_count(ph, an, dg) + 4 * (ph + an + dg)
}

/// The per-PMU block starting at `pos`: fixed fields at their offsets,
/// then the channel names and the three unit arrays.
pub open spec fn spec_block_at(s: Seq<u8>, pos: int) -> PmuConfigView {
    let ph = be16_at(s, pos + 20);
    let an = be16_at(s, pos + 22);
    let dg = be16_at(s, pos + 24);
    let cnt = spec_chan_count(ph, an, dg);
    PmuConfigView {
        stn: s.subrange(pos, pos + 16),
        idcode: be16_at(s, pos + 16),
        format: be16_at(s, pos + 18),
        phnmr: ph,
        annmr: an,
        dgnmr: dg,
        chnam: s.subrange(pos + 26, pos + 26 + 16 * cnt),
        phunit: Seq::new(ph as nat, |j: int| be32_at(s, pos + 26 + 16 * cnt + 4 * j)),
        anunit: Seq::new(an as nat, |j: int| be32_at(s, pos + 26 + 16 * cnt + 4 * ph + 4 * j)),
        digunit: Seq::new(
            dg as nat,
            |j: int| be32_at(s, pos + 26 + 16 * cnt + 4 * ph + 4 * an + 4 * j),
        ),
        fnom: be16_at(s, pos + 26 + 16 * cnt + 4 * (ph + an + dg)),
        cfgcnt: be16_at(s, pos + 26 + 16 * cnt + 4 * (ph + an + dg) + 2),
    }
}

/// One block parsed at `pos`, or the error when its counts cannot be
/// read below `limit` or the block they size runs past `limit`.
pub open spec fn spec_parse_block(s: Seq<u8>, pos: int, limit: int) -> Result<
    (PmuConfigView, int),
    ParseError,
> {
    if pos + 26 > limit {
        Err(ParseError::InvalidChannelCount { offset: pos as usize })
    } else {
        let b = spec_block_at(s, pos);
        if pos + spec_block_size(b.phnmr, b.annmr, b.dgnmr) > limit {
            Err(ParseError::InvalidChannelCount { offset: pos as usize })
        } else {
            Ok((b, pos + spec_block_size(b.phnmr, b.annmr, b.dgnmr)))
        }
    }
}

/// `n` blocks parsed in sequence from `pos`, with the position after
/// the last.
pub open spec fn spec_parse_blocks(s: Seq<u8>, pos: int, n: nat, limit: int) -> Result<
    (Seq<PmuConfigView>, int),
    ParseError,
>
    decreases n,
{
    if n == 0 {
        Ok((Seq::<PmuConfigView>::empty(), pos))
    } else {
        match spec_parse_block(s, pos, limit) {
            Err(e) => Err(e),
            Ok((b, end)) => match spec_parse_blocks(s, end, (n - 1) as nat, limit) {
                Err(e) => Err(e),
                Ok((rest, fin)) => Ok((seq![b] + rest, fin)),
            },
        }
    }
}

/// The configuration frame read from `s`, or the first error the walk
/// meets: a short buffer, a sync word without 0xAA, frame-type bits
/// that are neither configuration kind, a frame size below the 24-byte
/// minimum or past the buffer, blocks that do not fill the frame
/// exactly, or a CRC that does not match.
pub open spec fn spec_parse_config(s: Seq<u8>) -> Result<ConfigFrameView, ParseError> {
    if s.len() < 14 {
        Err(ParseError::TruncatedFrame { needed: 14, have: s.len() as usize })
    } else {
        let p = spec_prefix_of(s);
        if p.sync & 0xFF00 != 0xAA00 {
            Err(ParseError::MalformedPrefix { sync: p.sync })
        } else if spec_frame_type_bits(p.sync) != 2 && spec_frame_type_bits(p.sync) != 3 {
            Err(ParseError::UnknownFrameType { frame_type: spec_frame_type_bits(p.sync) as u8 })
        } else if p.framesize < 24 {
            Err(ParseError::TruncatedFrame { needed: 24, have: p.framesize as usize })
        } else if s.len() < p.framesize {
            Err(ParseError::TruncatedFrame { needed: p.framesize as usize, have: s.len() as usize })
        } else {
            match spec_parse_blocks(s, 20, be16_at(s, 18) as nat, p.framesize - 4) {
                Err(e) => Err(e),
                Ok((blocks, end)) => {
                    if end != p.framesize - 4 {
                        Err(ParseError::InvalidChannelCount { offset: end as usize })
                    } else {
                        let stored = be16_at(s, p.framesize - 2);
                        let computed = crc16(s.subrange(0, p.framesize - 2));
                        if computed != stored {
                            Err(ParseError::CrcMismatch { expected: computed, actual: stored })
                        } else {
                            Ok(
                                ConfigFrameView {
                                    prefix: p,
                                    time_base: be32_at(s, 14),
                                    num_pmu: be16_at(s, 18),
                                    pmu_configs: blocks,
                                    data_rate: be16_at(s, p.framesize - 4) as i16,
                                    chk: stored,
                                },
                            )
                        }
                    }
                },
            }
        }
    }
}

/// Reads `count` big-endian u32 values starting at `start`.
fn read_u32_array(buffer: &[u8], start: usize, count: usize) -> (r: Vec<u32>)
    requires
        start + 4 * count <= buffer@.len(),
    ensures
        r@ =~= Seq::new(count as nat, |j: int| be32_at(buffer@, start + 4 * j)),
{
    let n = buffer.len();
    let mut r: Vec<u32> = Vec::new();
    let mut j: usize = 0;
    while j < count
        invariant
            j <= count,
            n == buffer@.len(),
            start + 4 * count <= n,
            r@ =~= Seq::new(j as nat, |k: int| be32_at(buffer@, start + 4 * k)),
        decreases count - j,
    {
        let v = read_u32(buffer, start + 4 * j);
        r.push(v);
        proof {
            assert(r@ =~= Seq::new((j + 1) as nat, |k: int| be32_at(buffer@, start + 4 * k)));
        }
        j = j + 1;
    }
    r
}

/// Parses the per-PMU block at `pos`, returning it with the position
/// just past it.
fn parse_pmu_block(buffer: &[u8], pos: usize, limit: usize) -> (r: Result<
    (PMUConfigurationFrame2011, usize),
    ParseError,
>)
    requires
        limit <= buffer@.len(),
        limit <= 0xFFFF,
    ensures
        match r {
            Ok((b, end)) => spec_parse_block(buffer@, pos as int, limit as int) == Ok::<
                (PmuConfigView, int),
                ParseError,
            >((b@, end as int)),
            Err(e) => spec_parse_block(buffer@, pos as int, limit as int) == Err::<
                (PmuConfigView, int),
                ParseError,
            >(e),
        },
{
    if pos > limit || limit - pos < 26 {
        return Err(ParseError::InvalidChannelCount { offset: pos });
    }
    let ph = read_u16(buffer, pos + 20);
    let an = read_u16(buffer, pos + 22);
    let dg = read_u16(buffer, pos + 24);
    let cnt: usize = ph as usize + an as usize + 16 * (dg as usize);
    let units: usize = ph as usize + an as usize + dg as usize;
    let size: usize = 30 + 16 * cnt + 4 * units;
    if size > limit - pos {
        return Err(ParseError::InvalidChannelCount { offset: pos });
    }
    let stn: [u8; 16] = [
        buffer[pos],
        buffer[pos + 1],
        buffer[pos + 2],
        buffer[pos + 3],
        buffer[pos + 4],
        buffer[pos + 5],
        buffer[pos + 6],
        buffer[pos + 7],
        buffer[pos + 8],
        buffer[pos + 9],
        buffer[pos + 10],
        buffer[pos + 11],
        buffer[pos + 12],
        buffer[pos + 13],
        buffer[pos + 14],
        buffer[pos + 15],
    ];
    let names_at = pos + 26;
    let units_at = names_at + 16 * cnt;
    let tail_at = units_at + 4 * units;
    let b = PMUConfigurationFrame2011 {
        stn,
        idcode: read_u16(buffer, pos + 16),
        format: read_u16(buffer, pos + 18),
        phnmr: ph,
        annmr: an,
        dgnmr: dg,
        chnam: copy_range(buffer, names_at, 16 * cnt),
        phunit: read_u32_array(buffer, units_at, ph as usize),
        anunit: read_u32_array(buffer, units_at + 4 * (ph as usize), an as usize),
        digunit: read_u32_array(
            buffer,
            units_at + 4 * (ph as usize) + 4 * (an as usize),
            dg as usize,
        ),
        fnom: read_u16(buffer, tail_at),
        cfgcnt: read_u16(buffer, tail_at + 2),
    };
    proof {
        assert(stn@ =~= buffer@.subrange(pos as int, pos + 16));
        let sb = spec_block_at(buffer@, pos as int);
        assert(b@.phunit =~= sb.phunit);
        assert(b@.anunit =~= sb.anunit);
        assert(b@.digunit =~= sb.digunit);
    }
    Ok((b, pos + size))
}

/// Views of a sequence of parsed blocks.
pub open spec fn spec_block_views(v: Seq<PMUConfigurationFrame2011>) -> Seq<PmuConfigView> {
    Seq::new(v.len(), |i: int| v[i]@)
}

/// Parses a configuration frame 1 or 2. Succeeds exactly on a buffer
/// holding a complete, CRC-valid configuration frame whose per-PMU
/// blocks fill the advertised frame size, and returns the first error
/// of the mathematical parser otherwise.
pub fn parse_config_frame_1and2(buffer: &[u8]) -> (r: Result<
    ConfigurationFrame1and2_2011,
    ParseError,
>)
    ensures
        match r {
            Ok(c) => spec_parse_config(buffer@) == Ok::<ConfigFrameView, ParseError>(c@),
            Err(e) => spec_parse_config(buffer@) == Err::<ConfigFrameView, ParseError>(e),
        },
{
    if buffer.len() < 14 {
        return Err(ParseError::TruncatedFrame { needed: 14, have: buffer.len() });
    }
    let sync = read_u16(buffer, 0);
    let framesize = read_u16(buffer, 2);
    if sync & 0xFF00 != 0xAA00 {
        return Err(ParseError::MalformedPrefix { sync });
    }
    let ftype = (sync >> 4) & 0x7;
    if ftype != 2 && ftype != 3 {
        proof {
            assert((sync >> 4) & 0x7 < 256) by (bit_vector);
        }
        return Err(ParseError::UnknownFrameType { frame_type: ftype as u8 });
    }
    if framesize < 24 {
        return Err(ParseError::TruncatedFrame { needed: 24, have: framesize as usize });
    }
    if buffer.len() < framesize as usize {
        return Err(ParseError::TruncatedFrame { needed: framesize as usize, have: buffer.len() });
    }
    let fs = framesize as usize;
    let limit = fs - 4;
    let num_pmu = read_u16(buffer, 18);
    let mut pmu_configs: Vec<PMUConfigurationFrame2011> = Vec::new();
    let mut pos: usize = 20;
    let mut i: u16 = 0;
    while i < num_pmu
        invariant
            i <= num_pmu,
            limit == framesize - 4,
            framesize <= buffer@.len(),
            24 <= framesize,
            fs == framesize,
            sync == be16_at(buffer@, 0),
            framesize == be16_at(buffer@, 2),
            num_pmu == be16_at(buffer@, 18),
            sync & 0xFF00 == 0xAA00,
            (sync >> 4) & 0x7 == 2 || (sync >> 4) & 0x7 == 3,
            spec_parse_blocks(buffer@, 20, num_pmu as nat, limit as int) == match spec_parse_blocks(
                buffer@,
                pos as int,
                (num_pmu - i) as nat,
                limit as int,
            ) {
                Ok((rest, fin)) => Ok::<(Seq<PmuConfigView>, int), ParseError>(
                    (spec_block_views(pmu_configs@) + rest, fin),
                ),
                Err(e) => Err::<(Seq<PmuConfigView>, int), ParseError>(e),
            },
        decreases num_pmu - i,
    {
        let ghost n_left = (num_pmu - i) as nat;
        let ghost pre_blocks = pmu_configs@;
        match parse_pmu_block(buffer, pos, limit) {
            Err(e) => {
                proof {
                    let s = buffer@;
                    let p = spec_prefix_of(s);
                    assert(spec_parse_blocks(
                        s,
                        pos as int,
                        (num_pmu - i) as nat,
                        limit as int,
                    ) == Err::<(Seq<PmuConfigView>, int), ParseError>(e));
                    assert(spec_parse_blocks(s, 20, num_pmu as nat, limit as int) == Err::<
                        (Seq<PmuConfigView>, int),
                        ParseError,
                    >(e));
                    assert(p.sync == sync && p.framesize == framesize);
                    assert(be16_at(s, 18) == num_pmu);
                    assert(limit as int == p.framesize - 4);
                    assert(spec_parse_config(buffer@) == Err::<ConfigFrameView, ParseError>(e));
                }
                return Err(e);
            },
            Ok((b, end)) => {
                pmu_configs.push(b);
                proof {
                    let (sb, send) = spec_parse_block(buffer@, pos as int, limit as int)->Ok_0;
                    match spec_parse_blocks(buffer@, end as int, (n_left - 1) as nat, limit as int) {
                        Ok((rest, fin)) => {
                            assert(spec_block_views(pre_blocks) + (seq![sb] + rest)
                                =~= spec_block_views(pmu_configs@) + rest);
                        },
                        Err(_) => {},
                    }
                }
                pos = end;
            },
        }
        i = i + 1;
    }
    if pos != limit {
        return Err(ParseError::InvalidChannelCount { offset: pos });
    }
    let body = &buffer[0..fs - 2];
    let computed = calculate_crc(body);
    let stored = read_u16(buffer, fs - 2);
    proof {
        assert(body@ =~= buffer@.subrange(0, framesize - 2));
    }
    if computed != stored {
        return Err(ParseError::CrcMismatch { expected: computed, actual: stored });
    }
    let r = ConfigurationFrame1and2_2011 {
        prefix: PrefixFrame2011 {
            sync,
            framesize,
            idcode: read_u16(buffer, 4),
            soc: read_u32(buffer, 6),
            fracsec: read_u32(buffer, 10),
        },
        time_base: read_u32(buffer, 14),
        num_pmu,
        pmu_configs,
        data_rate: #[verifier::truncate] (read_u16(buffer, fs - 4) as i16),
        chk: stored,
    };
    proof {
        assert(spec_block_views(r.pmu_configs@) + Seq::<PmuConfigView>::empty() =~= r@.pmu_configs);
    }
    Ok(r)
}

// ---------------------------------------------------------------------
// Shape of a parsed configuration frame
// ---------------------------------------------------------------------
/// What parsing guarantees of every block it returns: the station name
/// and channel-name regions have their fixed widths and each unit array
/// has one word per channel.
pub open spec fn spec_block_wf(b: PmuConfigView) -> bool {
    &&& b.stn.len() == 16
    &&& b.chnam.len() == 16 * spec_chan_count(b.phnmr, b.annmr, b.dgnmr)
    &&& b.phunit.len() == b.phnmr
    &&& b.anunit.len() == b.annmr
    &&& b.digunit.len() == b.dgnmr
}

/// Total byte size of a sequence of blocks, in order.
pub open spec fn spec_blocks_size(blocks: Seq<PmuConfigView>) -> int
    decreases blocks.len(),
{
    if blocks.len() == 0 {
        0
    } else {
        spec_block_size(blocks[0].phnmr, blocks[0].annmr, blocks[0].dgnmr) + spec_blocks_size(
            blocks.drop_first(),
        )
    }
}

/// When `n` blocks parse, there are `n` of them, each well formed, and
/// the end position is the start plus their summed sizes, within the
/// limit.
pub proof fn lemma_parse_blocks_shape(s: Seq<u8>, pos: int, n: nat, limit: int)
    requires
        0 <= pos,
        limit <= s.len(),
        spec_parse_blocks(s, pos, n, limit) is Ok,
    ensures
        ({
            let (blocks, fin) = spec_parse_blocks(s, pos, n, limit)->Ok_0;
            &&& blocks.len() == n
            &&& fin == pos + spec_blocks_size(blocks)
            &&& n > 0 ==> fin <= limit
            &&& forall|i: int| 0 <= i < n ==> spec_block_wf(#[trigger] blocks[i])
        }),
    decreases n,
{
    if n > 0 {
        let (b, end) = spec_parse_block(s, pos, limit)->Ok_0;
        lemma_parse_blocks_shape(s, end, (n - 1) as nat, limit);
        let (rest, fin) = spec_parse_blocks(s, end, (n - 1) as nat, limit)->Ok_0;
        let (blocks, _fin) = spec_parse_blocks(s, pos, n, limit)->Ok_0;
        assert(blocks =~= seq![b] + rest);
        assert(blocks.drop_first() =~= rest);
        assert(spec_block_wf(b));
        assert(forall|i: int|
            1 <= i < n ==> spec_block_wf(#[trigger] blocks[i]) == spec_block_wf(rest[i - 1]));
    }
}

/// The layout law of a parsed configuration frame: the 14-byte prefix,
/// the 4-byte time base, the 2-byte PMU count, the per-PMU blocks, the
/// 2-byte data rate and the 2-byte CRC sum exactly to the advertised
/// frame size; there is one block per counted PMU and each is well
/// formed.
pub proof fn lemma_config_frame_size(s: Seq<u8>)
    requires
        spec_parse_config(s) is Ok,
    ensures
        ({
            let v = spec_parse_config(s)->Ok_0;
            &&& 14 + 4 + 2 + spec_blocks_size(v.pmu_configs) + 2 + 2 == v.prefix.framesize
            &&& v.pmu_configs.len() == v.num_pmu
            &&& forall|i: int|
                0 <= i < v.pmu_configs.len() ==> spec_block_wf(#[trigger] v.pmu_configs[i])
        }),
{
    let p = spec_prefix_of(s);
    lemma_parse_blocks_shape(s, 20, be16_at(s, 18) as nat, p.framesize - 4);
}

/// The prefix and header portion of a parsed configuration frame
/// re-encodes to the very bytes it was read from.
pub proof fn lemma_config_header_round_trip(s: Seq<u8>)
    requires
        spec_parse_config(s) is Ok,
    ensures
        ({
            let v = spec_parse_config(s)->Ok_0;
            crate::frames::spec_prefix_bytes(v.prefix) + crate::bytes_be::u32_be(v.time_base)
                + crate::bytes_be::u16_be(v.num_pmu) =~= s.subrange(0, 20)
        }),
{
    crate::frames::lemma_prefix_round_trip(s);
    crate::bytes_be::lemma_be32_write(s, 14);
    crate::bytes_be::lemma_be16_write(s, 18);
}

// ---------------------------------------------------------------------
// Sizes derived from a per-PMU configuration block
// ---------------------------------------------------------------------
/// Bytes per phasor: 8 when format bit 1 selects floating point, else 4.
pub open spec fn spec_phasor_size(format: u16) -> int {
    if format & 0x2 != 0 {
        8
    } else {
        4
    }
}

/// Bytes per analog value: 4 when format bit 2 selects floating point,
/// else 2.
pub open spec fn spec_analog_size(format: u16) -> int {
    if format & 0x4 != 0 {
        4
    } else {
        2
    }
}

/// Bytes for freq and for dfreq each: 4 when format bit 3 selects
/// floating point, else 2.
pub open spec fn spec_freq_size(format: u16) -> int {
    if format & 0x8 != 0 {
        4
    } else {
        2
    }
}

/// Byte size of one per-PMU data record under block `b`: stat, the
/// phasors, freq and dfreq, the analogs, one word per digital channel.
pub open spec fn spec_record_size(b: PmuConfigView) -> int {
    2 + b.phnmr * spec_phasor_size(b.format) + 2 * spec_freq_size(b.format) + b.annmr
        * spec_analog_size(b.format) + 2 * b.dgnmr
}

/// Total byte size of the records of all blocks, in order.
pub open spec fn spec_records_size(blocks: Seq<PmuConfigView>) -> int
    decreases blocks.len(),
{
    if blocks.len() == 0 {
        0
    } else {
        spec_record_size(blocks[0]) + spec_records_size(blocks.drop_first())
    }
}

/// Byte size of a whole data frame under `cfg`: prefix, the records,
/// and the trailing CRC.
pub open spec fn spec_data_frame_size(cfg: ConfigFrameView) -> int {
    14 + spec_records_size(cfg.pmu_configs) + 2
}

/// Record sizes are nonnegative.
pub proof fn lemma_records_size_nonneg(blocks: Seq<PmuConfigView>)
    ensures
        spec_records_size(blocks) >= 0,
    decreases blocks.len(),
{
    if blocks.len() > 0 {
        lemma_records_size_nonneg(blocks.drop_first());
    }
}

/// The records of a sequence split at `i` sum to the whole.
pub proof fn lemma_records_size_split(blocks: Seq<PmuConfigView>, i: int)
    requires
        0 <= i <= blocks.len(),
    ensures
        spec_records_size(blocks) == spec_records_size(blocks.take(i)) + spec_records_size(
            blocks.skip(i),
        ),
    decreases i,
{
    if i == 0 {
        assert(blocks.take(0) =~= Seq::<PmuConfigView>::empty());
        assert(blocks.skip(0) =~= blocks);
    } else {
        lemma_records_size_split(blocks.drop_first(), i - 1);
        assert(blocks.take(i).drop_first() =~= blocks.drop_first().take(i - 1));
        assert(blocks.skip(i) =~= blocks.drop_first().skip(i - 1));
        assert(blocks.take(i)[0] == blocks[0]);
        assert(spec_records_size(blocks.take(i)) == spec_record_size(blocks[0])
            + spec_records_size(blocks.drop_first().take(i - 1)));
    }
}

impl PMUConfigurationFrame2011 {
    /// Bytes per phasor value of this PMU.
    pub fn phasor_size(&self) -> (r: usize)
        ensures
            r == spec_phasor_size(self.format),
    {
        if self.format & 0x2 != 0 {
            8
        } else {
            4
        }
    }

    /// Bytes per analog value of this PMU.
    pub fn analog_size(&self) -> (r: usize)
        ensures
            r == spec_analog_size(self.format),
    {
        if self.format & 0x4 != 0 {
            4
        } else {
            2
        }
    }

    /// Bytes for freq, and for dfreq, of this PMU.
    pub fn freq_dfreq_size(&self) -> (r: usize)
        ensures
            r == spec_freq_size(self.format),
    {
        if self.format & 0x8 != 0 {
            4
        } else {
            2
        }
    }

    /// Whether this PMU's phasors are magnitude and angle rather than
    /// real and imaginary parts (format bit 0).
    pub fn is_phasor_polar(&self) -> (r: bool)
        ensures
            r == (self.format & 0x1 != 0),
    {
        self.format & 0x1 != 0
    }

    /// Byte size of this PMU's record in a data frame.
    pub fn record_size(&self) -> (r: usize)
        ensures
            r == spec_record_size(self@),
            r <= 0x100000,
    {
        let ph: usize = self.phnmr as usize;
        let an: usize = self.annmr as usize;
        let psz = self.phasor_size();
        let asz = self.analog_size();
        proof {
            assert(ph * psz <= 65535 * 8) by (nonlinear_arith)
                requires
                    ph <= 65535,
                    psz <= 8,
                    0 <= ph,
                    0 <= psz,
            ;
            assert(an * asz <= 65535 * 4) by (nonlinear_arith)
                requires
                    an <= 65535,
                    asz <= 4,
                    0 <= an,
                    0 <= asz,
            ;
        }
        2 + ph * psz + 2 * self.freq_dfreq_size() + an * asz + 2 * (self.dgnmr as usize)
    }
}

impl ConfigurationFrame1and2_2011 {
    /// Byte size a data frame governed by this configuration must have:
    /// prefix, one record per PMU, and the trailing CRC.
    pub fn calc_data_frame_size(&self) -> (r: usize)
        requires
            spec_data_frame_size(self@) <= usize::MAX,
        ensures
            r == spec_data_frame_size(self@),
    {
        let ghost all = self@.pmu_configs;
        let mut acc: usize = 14;
        let mut i: usize = 0;
        while i < self.pmu_configs.len()
            invariant
                i <= self.pmu_configs@.len(),
                all == self@.pmu_configs,
                all.len() == self.pmu_configs@.len(),
                acc == 14 + spec_records_size(all.take(i as int)),
                spec_data_frame_size(self@) <= usize::MAX,
            decreases self.pmu_configs@.len() - i,
        {
            let rs = self.pmu_configs[i].record_size();
            proof {
                lemma_records_size_split(all, i as int);
                lemma_records_size_split(all.skip(i as int), 1);
                assert(all.skip(i as int).take(1) =~= seq![all[i as int]]);
                assert(spec_records_size(seq![all[i as int]]) == spec_record_size(all[i as int]));
                assert(all.skip(i as int).skip(1) =~= all.skip(i + 1));
                lemma_records_size_nonneg(all.skip(i + 1));
                assert(all.take(i + 1) =~= all.take(i as int).push(all[i as int]));
                lemma_records_size_split(all.take(i + 1), i as int);
                assert(all.take(i + 1).take(i as int) =~= all.take(i as int));
                assert(all.take(i + 1).skip(i as int) =~= seq![all[i as int]]);
            }
            acc = acc + rs;
            i = i + 1;
        }
        proof {
            assert(all.take(all.len() as int) =~= all);
        }
        acc + 2
    }
}

// ---------------------------------------------------------------------
// Data frame parsing
// ---------------------------------------------------------------------
/// The per-PMU record starting at `pos`, typed by block `b`'s format
/// word: stat, then the raw phasor bytes, freq and dfreq, the raw
/// analog bytes, and the raw digital bytes.
pub open spec fn spec_record_at(s: Seq<u8>, pos: int, b: PmuConfigView) -> DataRecordView {
    let ph_len = b.phnmr * spec_phasor_size(b.format);
    let fsz = spec_freq_size(b.format);
    let an_len = b.annmr * spec_analog_size(b.format);
    let freq_at = pos + 2 + ph_len;
    let an_at = freq_at + 2 * fsz;
    let dg_at = an_at + an_len;
    if b.format & 0x8 != 0 {
        DataRecordView::Float(
            PmuDataFloatView {
                stat: be16_at(s, pos),
                phasors: s.subrange(pos + 2, pos + 2 + ph_len),
                freq: be32_at(s, freq_at),
                dfreq: be32_at(s, freq_at + 4),
                analog: s.subrange(an_at, an_at + an_len),
                digital: s.subrange(dg_at, dg_at + 2 * b.dgnmr),
            },
        )
    } else {
        DataRecordView::Int(
            PmuDataIntView {
                stat: be16_at(s, pos),
                phasors: s.subrange(pos + 2, pos + 2 + ph_len),
                freq: be16_at(s, freq_at) as i16,
                dfreq: be16_at(s, freq_at + 2) as i16,
                analog: s.subrange(an_at, an_at + an_len),
                digital: s.subrange(dg_at, dg_at + 2 * b.dgnmr),
            },
        )
    }
}

/// The records of all blocks read in sequence from `pos`, with the
/// position after the last, or the error when a record runs past
/// `limit`.
pub open spec fn spec_parse_records(s: Seq<u8>, pos: int, blocks: Seq<PmuConfigView>, limit: int) -> Result<
    (Seq<DataRecordView>, int),
    ParseError,
>
    decreases blocks.len(),
{
    if blocks.len() == 0 {
        Ok((Seq::<DataRecordView>::empty(), pos))
    } else {
        let size = spec_record_size(blocks[0]);
        if pos + size > limit {
            Err(
                ParseError::TruncatedFrame {
                    needed: (pos + size) as usize,
                    have: limit as usize,
                },
            )
        } else {
            match spec_parse_records(s, pos + size, blocks.drop_first(), limit) {
                Err(e) => Err(e),
                Ok((rest, fin)) => Ok((seq![spec_record_at(s, pos, blocks[0])] + rest, fin)),
            }
        }
    }
}

/// The data frame read from `s` under configuration `cfg`, or the first
/// error the walk meets: a short buffer, a sync word without 0xAA,
/// frame-type bits that are not the data kind, a frame size below the
/// 16-byte minimum or past the buffer, records that do not fill the
/// frame exactly, or a CRC that does not match.
pub open spec fn spec_parse_data(s: Seq<u8>, cfg: ConfigFrameView) -> Result<
    DataFrameView,
    ParseError,
> {
    if s.len() < 14 {
        Err(ParseError::TruncatedFrame { needed: 14, have: s.len() as usize })
    } else {
        let p = spec_prefix_of(s);
        if p.sync & 0xFF00 != 0xAA00 {
            Err(ParseError::MalformedPrefix { sync: p.sync })
        } else if spec_frame_type_bits(p.sync) != 0 {
            Err(ParseError::UnknownFrameType { frame_type: spec_frame_type_bits(p.sync) as u8 })
        } else if p.framesize < 16 {
            Err(ParseError::TruncatedFrame { needed: 16, have: p.framesize as usize })
        } else if s.len() < p.framesize {
            Err(ParseError::TruncatedFrame { needed: p.framesize as usize, have: s.len() as usize })
        } else {
            match spec_parse_records(s, 14, cfg.pmu_configs, p.framesize - 2) {
                Err(e) => Err(e),
                Ok((records, end)) => {
                    if end != p.framesize - 2 {
                        Err(
                            ParseError::TruncatedFrame {
                                needed: (end + 2) as usize,
                                have: p.framesize as usize,
                            },
                        )
                    } else {
                        let stored = be16_at(s, p.framesize - 2);
                        let computed = crc16(s.subrange(0, p.framesize - 2));
                        if computed != stored {
                            Err(ParseError::CrcMismatch { expected: computed, actual: stored })
                        } else {
                            Ok(DataFrameView { prefix: p, data: records, chk: stored })
                        }
                    }
                },
            }
        }
    }
}

/// Reads the record of block `b` at `pos`; `end` is the position just
/// past it.
fn parse_pmu_record(buffer: &[u8], pos: usize, b: &PMUConfigurationFrame2011) -> (r: DataFrameType)
    requires
        pos + spec_record_size(b@) <= buffer@.len(),
    ensures
        r@ == spec_record_at(buffer@, pos as int, b@),
{
    let n = buffer.len();
    let ph: usize = b.phnmr as usize;
    let an: usize = b.annmr as usize;
    let psz = b.phasor_size();
    let asz = b.analog_size();
    proof {
        assert(ph * psz <= 65535 * 8) by (nonlinear_arith)
            requires
                ph <= 65535,
                psz <= 8,
                0 <= ph,
                0 <= psz,
        ;
        assert(an * asz <= 65535 * 4) by (nonlinear_arith)
            requires
                an <= 65535,
                asz <= 4,
                0 <= an,
                0 <= asz,
        ;
    }
    let ph_len = ph * psz;
    let fsz = b.freq_dfreq_size();
    let an_len = an * asz;
    let freq_at = pos + 2 + ph_len;
    let an_at = freq_at + 2 * fsz;
    let dg_at = an_at + an_len;
    let stat = read_u16(buffer, pos);
    let phasors = copy_range(buffer, pos + 2, ph_len);
    let analog = copy_range(buffer, an_at, an_len);
    let digital = copy_range(buffer, dg_at, 2 * (b.dgnmr as usize));
    if b.format & 0x8 != 0 {
        DataFrameType::Float(
            PMUDataFrameFloat2011 {
                stat,
                phasors,
                freq: read_u32(buffer, freq_at),
                dfreq: read_u32(buffer, freq_at + 4),
                analog,
                digital,
            },
        )
    } else {
        DataFrameType::Int(
            PMUDataFrameInt2011 {
                stat,
                phasors,
                freq: #[verifier::truncate] (read_u16(buffer, freq_at) as i16),
                dfreq: #[verifier::truncate] (read_u16(buffer, freq_at + 2) as i16),
                analog,
                digital,
            },
        )
    }
}

/// Views of a sequence of parsed records.
pub open spec fn spec_record_views(v: Seq<DataFrameType>) -> Seq<DataRecordView> {
    Seq::new(v.len(), |i: int| v[i]@)
}

/// Parses a data frame under `config_frame`. Succeeds exactly on a
/// buffer holding a complete, CRC-valid data frame whose per-PMU
/// records, sized by the configuration's blocks, fill the advertised
/// frame size, and returns the first error of the mathematical parser
/// otherwise.
pub fn parse_data_frames(buffer: &[u8], config_frame: &ConfigurationFrame1and2_2011) -> (r: Result<
    DataFrame2011,
    ParseError,
>)
    ensures
        match r {
            Ok(d) => spec_parse_data(buffer@, config_frame@) == Ok::<DataFrameView, ParseError>(
                d@,
            ),
            Err(e) => spec_parse_data(buffer@, config_frame@) == Err::<DataFrameView, ParseError>(
                e,
            ),
        },
{
    if buffer.len() < 14 {
        return Err(ParseError::TruncatedFrame { needed: 14, have: buffer.len() });
    }
    let sync = read_u16(buffer, 0);
    let framesize = read_u16(buffer, 2);
    if sync & 0xFF00 != 0xAA00 {
        return Err(ParseError::MalformedPrefix { sync });
    }
    let ftype = (sync >> 4) & 0x7;
    if ftype != 0 {
        proof {
            assert((sync >> 4) & 0x7 < 256) by (bit_vector);
        }
        return Err(ParseError::UnknownFrameType { frame_type: ftype as u8 });
    }
    if framesize < 16 {
        return Err(ParseError::TruncatedFrame { needed: 16, have: framesize as usize });
    }
    if buffer.len() < framesize as usize {
        return Err(ParseError::TruncatedFrame { needed: framesize as usize, have: buffer.len() });
    }
    let fs = framesize as usize;
    let limit = fs - 2;
    let ghost all = config_frame@.pmu_configs;
    let n_pmus = config_frame.pmu_configs.len();
    let mut records: Vec<DataFrameType> = Vec::new();
    let mut pos: usize = 14;
    let mut i: usize = 0;
    proof {
        assert(all.skip(0) =~= all);
        match spec_parse_records(buffer@, 14, all, limit as int) {
            Ok((rest, fin)) => {
                assert(spec_record_views(records@) + rest =~= rest);
            },
            Err(_) => {},
        }
    }
    while i < n_pmus
        invariant
            i <= n_pmus,
            n_pmus == all.len(),
            all == config_frame@.pmu_configs,
            limit == framesize - 2,
            fs == framesize,
            framesize <= buffer@.len(),
            16 <= framesize,
            pos <= limit,
            sync == be16_at(buffer@, 0),
            framesize == be16_at(buffer@, 2),
            sync & 0xFF00 == 0xAA00,
            (sync >> 4) & 0x7 == 0,
            spec_parse_records(buffer@, 14, all, limit as int) == match spec_parse_records(
                buffer@,
                pos as int,
                all.skip(i as int),
                limit as int,
            ) {
                Ok((rest, fin)) => Ok::<(Seq<DataRecordView>, int), ParseError>(
                    (spec_record_views(records@) + rest, fin),
                ),
                Err(e) => Err::<(Seq<DataRecordView>, int), ParseError>(e),
            },
        decreases n_pmus - i,
    {
        let b = &config_frame.pmu_configs[i];
        let size = b.record_size();
        let ghost blocks_left = all.skip(i as int);
        proof {
            assert(blocks_left[0] == all[i as int]);
            assert(blocks_left.drop_first() =~= all.skip(i + 1));
        }
        if size > limit - pos {
            let e = ParseError::TruncatedFrame { needed: pos + size, have: limit };
            proof {
                assert(spec_parse_records(buffer@, pos as int, blocks_left, limit as int) == Err::<
                    (Seq<DataRecordView>, int),
                    ParseError,
                >(e));
                assert(spec_parse_data(buffer@, config_frame@) == Err::<
                    DataFrameView,
                    ParseError,
                >(e));
            }
            return Err(e);
        }
        let ghost pre_records = records@;
        let rec = parse_pmu_record(buffer, pos, b);
        records.push(rec);
        proof {
            match spec_parse_records(buffer@, pos + size, all.skip(i + 1), limit as int) {
                Ok((rest, fin)) => {
                    assert(spec_record_views(pre_records) + (seq![
                        spec_record_at(buffer@, pos as int, all[i as int]),
                    ] + rest) =~= spec_record_views(records@) + rest);
                },
                Err(_) => {},
            }
        }
        pos = pos + size;
        i = i + 1;
    }
    proof {
        assert(all.skip(all.len() as int) =~= Seq::<PmuConfigView>::empty());
    }
    if pos != limit {
        let e = ParseError::TruncatedFrame { needed: pos + 2, have: fs };
        return Err(e);
    }
    let body = &buffer[0..fs - 2];
    let computed = calculate_crc(body);
    let stored = read_u16(buffer, fs - 2);
    proof {
        assert(body@ =~= buffer@.subrange(0, framesize - 2));
    }
    if computed != stored {
        return Err(ParseError::CrcMismatch { expected: computed, actual: stored });
    }
    let r = DataFrame2011 {
        prefix: PrefixFrame2011 {
            sync,
            framesize,
            idcode: read_u16(buffer, 4),
            soc: read_u32(buffer, 6),
            fracsec: read_u32(buffer, 10),
        },
        data: records,
        chk: stored,
    };
    proof {
        assert(spec_record_views(r.data@) + Seq::<DataRecordView>::empty() =~= r@.data);
    }
    Ok(r)
}

/// When the records of all blocks parse, there is one per block and the
/// end position is the start plus their summed sizes.
pub proof fn lemma_parse_records_shape(s: Seq<u8>, pos: int, blocks: Seq<PmuConfigView>, limit: int)
    requires
        spec_parse_records(s, pos, blocks, limit) is Ok,
    ensures
        ({
            let (recs, fin) = spec_parse_records(s, pos, blocks, limit)->Ok_0;
            &&& recs.len() == blocks.len()
            &&& fin == pos + spec_records_size(blocks)
        }),
    decreases blocks.len(),
{
    if blocks.len() > 0 {
        let size = spec_record_size(blocks[0]);
        lemma_parse_records_shape(s, pos + size, blocks.drop_first(), limit);
    }
}

/// The layout law of a parsed data frame: its advertised frame size
/// equals the size the governing configuration computes for a data
/// frame, and it holds one record per configured PMU.
pub proof fn lemma_data_frame_size(s: Seq<u8>, cfg: ConfigFrameView)
    requires
        spec_parse_data(s, cfg) is Ok,
    ensures
        spec_parse_data(s, cfg)->Ok_0.prefix.framesize == spec_data_frame_size(cfg),
        spec_parse_data(s, cfg)->Ok_0.data.len() == cfg.pmu_configs.len(),
{
    lemma_parse_records_shape(s, 14, cfg.pmu_configs, spec_prefix_of(s).framesize - 2);
}

} // verus!
