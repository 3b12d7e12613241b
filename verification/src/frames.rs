//! Frame structures of IEEE C37.118.2 and the codecs for the fixed-size
//! ones: the 14-byte prefix shared by every frame and the command frame.

use vstd::prelude::*;

use crate::bytes_be::{
    be16_at, be32_at, copy_range, lemma_be16_write, lemma_be32_write, push_u16_be, push_u32_be,
    read_u16, read_u32, u16_be, u32_be,
};
use crate::crc::{calculate_crc, crc16};
use crate::errors::ParseError;

verus! {

// ---------------------------------------------------------------------
// Prefix
// ---------------------------------------------------------------------
/// The 14-byte preamble shared by all frames. All fields big-endian.
#[derive(Debug, Clone, Copy, PartialEq, Eq, Structural)]
pub struct PrefixFrame2011 {
    /// 0xAA in the high byte; frame type and version in the low byte.
    pub sync: u16,
    /// Total frame length in bytes, trailing CRC included.
    pub framesize: u16,
    /// Data stream id number.
    pub idcode: u16,
    /// Timestamp, UNIX seconds.
    pub soc: u32,
    /// High 8 bits time-quality flags; low 24 bits fractional second
    /// scaled by the stream's time base.
    pub fracsec: u32,
}

/// The 14 bytes that encode a prefix.
pub open spec fn spec_prefix_bytes(p: PrefixFrame2011) -> Seq<u8> {
    u16_be(p.sync) + u16_be(p.framesize) + u16_be(p.idcode) + u32_be(p.soc) + u32_be(p.fracsec)
}

/// The prefix read from the first 14 bytes of `s`.
pub open spec fn spec_prefix_of(s: Seq<u8>) -> PrefixFrame2011
    recommends
        s.len() >= 14,
{
    PrefixFrame2011 {
        sync: be16_at(s, 0),
        framesize: be16_at(s, 2),
        idcode: be16_at(s, 4),
        soc: be32_at(s, 6),
        fracsec: be32_at(s, 10),
    }
}

/// Reading a prefix from bytes and encoding it again restores the bytes.
pub proof fn lemma_prefix_round_trip(s: Seq<u8>)
    requires
        s.len() >= 14,
    ensures
        spec_prefix_bytes(spec_prefix_of(s)) =~= s.subrange(0, 14),
{
    lemma_be16_write(s, 0);
    lemma_be16_write(s, 2);
    lemma_be16_write(s, 4);
    lemma_be32_write(s, 6);
    lemma_be32_write(s, 10);
}

/// The frame-type bits of the second sync byte (data = 0, header = 1,
/// configuration 1 = 2, configuration 2 = 3, command = 4,
/// configuration 3 = 5).
pub open spec fn spec_frame_type_bits(sync: u16) -> u16 {
    (sync >> 4) & 0x7
}

impl PrefixFrame2011 {
    /// Encodes the prefix as its 14 big-endian bytes.
    pub fn to_hex(&self) -> (r: [u8; 14])
        ensures
            r@ =~= spec_prefix_bytes(*self),
    {
        let r: [u8; 14] = [
            (self.sync / 0x100) as u8,
            (self.sync % 0x100) as u8,
            (self.framesize / 0x100) as u8,
            (self.framesize % 0x100) as u8,
            (self.idcode / 0x100) as u8,
            (self.idcode % 0x100) as u8,
            (self.soc / 0x1000000) as u8,
            ((self.soc / 0x10000) % 0x100) as u8,
            ((self.soc / 0x100) % 0x100) as u8,
            (self.soc % 0x100) as u8,
            (self.fracsec / 0x1000000) as u8,
            ((self.fracsec / 0x10000) % 0x100) as u8,
            ((self.fracsec / 0x100) % 0x100) as u8,
            (self.fracsec % 0x100) as u8,
        ];
        proof {
            assert(r@ =~= spec_prefix_bytes(*self));
        }
        r
    }

    /// Decodes a prefix from exactly 14 bytes; the fields are the
    /// big-endian integers at their fixed offsets. The caller checks the
    /// sync word; this codec does not.
    pub fn from_hex(bytes: &[u8; 14]) -> (r: Result<Self, &'static str>)
        ensures
            r == Ok::<Self, &'static str>(spec_prefix_of(bytes@)),
    {
        Ok(PrefixFrame2011 {
            sync: (bytes[0] as u16) * 0x100 + (bytes[1] as u16),
            framesize: (bytes[2] as u16) * 0x100 + (bytes[3] as u16),
            idcode: (bytes[4] as u16) * 0x100 + (bytes[5] as u16),
            soc: (bytes[6] as u32) * 0x1000000 + (bytes[7] as u32) * 0x10000 + (bytes[8] as u32)
                * 0x100 + (bytes[9] as u32),
            fracsec: (bytes[10] as u32) * 0x1000000 + (bytes[11] as u32) * 0x10000 + (
            bytes[12] as u32) * 0x100 + (bytes[13] as u32),
        })
    }
}

/// Appends the 14 prefix bytes to `out`.
pub fn push_prefix(out: &mut Vec<u8>, p: &PrefixFrame2011)
    ensures
        final(out)@ =~= old(out)@ + spec_prefix_bytes(*p),
{
    push_u16_be(out, p.sync);
    push_u16_be(out, p.framesize);
    push_u16_be(out, p.idcode);
    push_u32_be(out, p.soc);
    push_u32_be(out, p.fracsec);
}

// ---------------------------------------------------------------------
// Header frame (2011): structural definition only.
// ---------------------------------------------------------------------
#[derive(Debug)]
pub struct HeaderFrame2011 {
    pub prefix: PrefixFrame2011,
    /// Data source identifier, 32 ASCII bytes.
    pub data_source: [u8; 32],
    /// Version of data file or stream, 4 ASCII bytes.
    pub version: [u8; 4],
    pub chk: u16,
}

// ---------------------------------------------------------------------
// Command frame
// ---------------------------------------------------------------------
/// A command frame: prefix, command word, optional extended payload,
/// and trailing CRC.
#[derive(Debug, Clone, PartialEq)]
pub struct CommandFrame2011 {
    pub prefix: PrefixFrame2011,
    pub command: u16,
    /// Extended payload; absent for the seven standard commands.
    pub extframe: Option<Vec<u8>>,
    pub chk: u16,
}

/// Mathematical image of a command frame.
pub ghost struct CommandFrameView {
    pub prefix: PrefixFrame2011,
    pub command: u16,
    pub extframe: Option<Seq<u8>>,
    pub chk: u16,
}

impl View for CommandFrame2011 {
    type V = CommandFrameView;

    open spec fn view(&self) -> CommandFrameView {
        CommandFrameView {
            prefix: self.prefix,
            command: self.command,
            extframe: match self.extframe {
                Some(v) => Some(v@),
                None => None,
            },
            chk: self.chk,
        }
    }
}

/// The bytes `to_hex` produces for a command frame: prefix, command
/// word, payload if any, then the CRC of everything before it.
pub open spec fn spec_command_bytes(v: CommandFrameView) -> Seq<u8> {
    let body = spec_prefix_bytes(v.prefix) + u16_be(v.command) + match v.extframe {
        Some(e) => e,
        None => Seq::<u8>::empty(),
    };
    body + u16_be(crc16(body))
}

/// The command frame read from `s`, or the first error the walk meets:
/// a short buffer, a sync word without 0xAA, frame-type bits that are
/// not the command kind, a frame size below the 18-byte minimum or past
/// the buffer, or a CRC that does not match.
pub open spec fn spec_parse_command(s: Seq<u8>) -> Result<CommandFrameView, ParseError> {
    if s.len() < 14 {
        Err(ParseError::TruncatedFrame { needed: 14, have: s.len() as usize })
    } else {
        let p = spec_prefix_of(s);
        if p.sync & 0xFF00 != 0xAA00 {
            Err(ParseError::MalformedPrefix { sync: p.sync })
        } else if spec_frame_type_bits(p.sync) != 4 {
            Err(ParseError::UnknownFrameType { frame_type: spec_frame_type_bits(p.sync) as u8 })
        } else if p.framesize < 18 {
            Err(ParseError::TruncatedFrame { needed: 18, have: p.framesize as usize })
        } else if s.len() < p.framesize {
            Err(ParseError::TruncatedFrame { needed: p.framesize as usize, have: s.len() as usize })
        } else {
            let body = s.subrange(0, p.framesize - 2);
            let stored = be16_at(s, p.framesize - 2);
            if crc16(body) != stored {
                Err(ParseError::CrcMismatch { expected: crc16(body), actual: stored })
            } else {
                Ok(
                    CommandFrameView {
                        prefix: p,
                        command: be16_at(s, 14),
                        extframe: if p.framesize == 18 {
                            None
                        } else {
                            Some(s.subrange(16, p.framesize - 2))
                        },
                        chk: stored,
                    },
                )
            }
        }
    }
}

impl CommandFrame2011 {
    /// Command 1: turn off transmission.
    pub fn new_turn_off_transmission(idcode: u16) -> (r: Self)
        ensures
            r@ == spec_new_command(idcode, 1),
    {
        Self::new_command(idcode, 1)
    }

    /// Command 2: turn on transmission.
    pub fn new_turn_on_transmission(idcode: u16) -> (r: Self)
        ensures
            r@ == spec_new_command(idcode, 2),
    {
        Self::new_command(idcode, 2)
    }

    /// Command 3: send the header frame.
    pub fn new_send_header_frame(idcode: u16) -> (r: Self)
        ensures
            r@ == spec_new_command(idcode, 3),
    {
        Self::new_command(idcode, 3)
    }

    /// Command 4: send configuration frame 1.
    pub fn new_send_config_frame1(idcode: u16) -> (r: Self)
        ensures
            r@ == spec_new_command(idcode, 4),
    {
        Self::new_command(idcode, 4)
    }

    /// Command 5: send configuration frame 2.
    pub fn new_send_config_frame2(idcode: u16) -> (r: Self)
        ensures
            r@ == spec_new_command(idcode, 5),
    {
        Self::new_command(idcode, 5)
    }

    /// Command 6: send configuration frame 3.
    pub fn new_send_config_frame3(idcode: u16) -> (r: Self)
        ensures
            r@ == spec_new_command(idcode, 6),
    {
        Self::new_command(idcode, 6)
    }

    /// Command 8: extended frame.
    pub fn new_extended_frame(idcode: u16) -> (r: Self)
        ensures
            r@ == spec_new_command(idcode, 8),
    {
        Self::new_command(idcode, 8)
    }

    /// Builds a command frame with sync 0xAA41, the fixed 18-byte size,
    /// and zero timestamps; the transport stamps soc and fracsec
    /// immediately before transmission.
    fn new_command(idcode: u16, command: u16) -> (r: Self)
        ensures
            r@ == spec_new_command(idcode, command),
    {
        let prefix = PrefixFrame2011 {
            sync: 0xAA41,
            framesize: 18,
            idcode,
            soc: 0,
            fracsec: 0,
        };
        CommandFrame2011 { prefix, command, extframe: None, chk: 0 }
    }

    /// Encodes the frame: prefix, command word, payload if any, then
    /// the CRC over everything preceding it. The stored `chk` field is
    /// not consulted; the CRC is always recomputed.
    pub fn to_hex(&self) -> (r: Vec<u8>)
        ensures
            r@ =~= spec_command_bytes(self@),
    {
        let mut result: Vec<u8> = Vec::new();
        push_prefix(&mut result, &self.prefix);
        push_u16_be(&mut result, self.command);
        match &self.extframe {
            Some(extframe) => {
                let mut i: usize = 0;
                let ghost base = result@;
                while i < extframe.len()
                    invariant
                        i <= extframe@.len(),
                        result@ =~= base + extframe@.take(i as int),
                    decreases extframe@.len() - i,
                {
                    result.push(extframe[i]);
                    proof {
                        assert(base + extframe@.take(i as int) + seq![extframe@[i as int]] =~= base
                            + extframe@.take(i + 1));
                    }
                    i = i + 1;
                }
                proof {
                    assert(extframe@.take(extframe@.len() as int) =~= extframe@);
                }
            },
            None => {},
        }
        let crc = calculate_crc(result.as_slice());
        push_u16_be(&mut result, crc);
        result
    }

    /// Decodes a command frame from `buffer`. Succeeds exactly on a
    /// buffer holding a complete command frame with a valid CRC, and
    /// returns the first error the walk meets otherwise.
    pub fn from_hex(buffer: &[u8]) -> (r: Result<Self, ParseError>)
        ensures
            match r {
                Ok(c) => spec_parse_command(buffer@) == Ok::<CommandFrameView, ParseError>(c@),
                Err(e) => spec_parse_command(buffer@) == Err::<CommandFrameView, ParseError>(e),
            },
    {
        if buffer.len() < 14 {
            return Err(ParseError::TruncatedFrame { needed: 14, have: buffer.len() });
        }
        let sync = read_u16(buffer, 0);
        let framesize = read_u16(buffer, 2);
        if sync & 0xFF00 != 0xAA00 {
            return Err(ParseError::MalformedPrefix { sync });
        }
        if (sync >> 4) & 0x7 != 4 {
            return Err(ParseError::UnknownFrameType { frame_type: ((sync >> 4) & 0x7) as u8 });
        }
        if framesize < 18 {
            return Err(ParseError::TruncatedFrame { needed: 18, have: framesize as usize });
        }
        if buffer.len() < framesize as usize {
            return Err(
                ParseError::TruncatedFrame { needed: framesize as usize, have: buffer.len() },
            );
        }
        let fs = framesize as usize;
        let body = &buffer[0..fs - 2];
        let computed = calculate_crc(body);
        let stored = read_u16(buffer, fs - 2);
        if computed != stored {
            return Err(ParseError::CrcMismatch { expected: computed, actual: stored });
        }
        let prefix = PrefixFrame2011 {
            sync,
            framesize,
            idcode: read_u16(buffer, 4),
            soc: read_u32(buffer, 6),
            fracsec: read_u32(buffer, 10),
        };
        let extframe = if framesize == 18 {
            None
        } else {
            Some(copy_range(buffer, 16, fs - 18))
        };
        let r = CommandFrame2011 { prefix, command: read_u16(buffer, 14), extframe, chk: stored };
        proof {
            assert(body@ =~= buffer@.subrange(0, framesize - 2));
            if framesize != 18 {
                assert(r@.extframe->0 =~= buffer@.subrange(16, framesize - 2));
            }
        }
        Ok(r)
    }
}

/// The frame every command constructor builds: sync 0xAA41, size 18,
/// the given stream id and command, zero timestamps, no payload.
pub open spec fn spec_new_command(idcode: u16, command: u16) -> CommandFrameView {
    CommandFrameView {
        prefix: PrefixFrame2011 { sync: 0xAA41, framesize: 18, idcode, soc: 0, fracsec: 0 },
        command,
        extframe: None,
        chk: 0,
    }
}

// ---------------------------------------------------------------------
// Configuration frames 1 and 2
// ---------------------------------------------------------------------
/// One per-PMU block of a configuration frame.
#[derive(Debug, Clone, PartialEq)]
pub struct PMUConfigurationFrame2011 {
    /// Station name, 16 ASCII bytes, space-padded on the right.
    pub stn: [u8; 16],
    /// Data source id of this PMU's data blocks.
    pub idcode: u16,
    /// Format word. Bit 0: polar (1) or rectangular (0) phasors; bit 1:
    /// float (1) or integer (0) phasors; bit 2: float or integer
    /// analogs; bit 3: float or integer freq and dfreq.
    pub format: u16,
    /// Number of phasors.
    pub phnmr: u16,
    /// Number of analog values.
    pub annmr: u16,
    /// Number of digital status words.
    pub dgnmr: u16,
    /// Channel names: one 16-byte ASCII window per phasor, per analog,
    /// and per bit of each digital word.
    pub chnam: Vec<u8>,
    /// Conversion factors for phasor channels, one per phasor.
    pub phunit: Vec<u32>,
    /// Conversion factors for analog channels, one per analog.
    pub anunit: Vec<u32>,
    /// Mask words for digital status words, one per word.
    pub digunit: Vec<u32>,
    /// Nominal frequency code: bit 0 set selects 50 Hz, clear 60 Hz.
    pub fnom: u16,
    /// Configuration change count.
    pub cfgcnt: u16,
}

/// Mathematical image of a per-PMU configuration block.
pub ghost struct PmuConfigView {
    pub stn: Seq<u8>,
    pub idcode: u16,
    pub format: u16,
    pub phnmr: u16,
    pub annmr: u16,
    pub dgnmr: u16,
    pub chnam: Seq<u8>,
    pub phunit: Seq<u32>,
    pub anunit: Seq<u32>,
    pub digunit: Seq<u32>,
    pub fnom: u16,
    pub cfgcnt: u16,
}

impl View for PMUConfigurationFrame2011 {
    type V = PmuConfigView;

    open spec fn view(&self) -> PmuConfigView {
        PmuConfigView {
            stn: self.stn@,
            idcode: self.idcode,
            format: self.format,
            phnmr: self.phnmr,
            annmr: self.annmr,
            dgnmr: self.dgnmr,
            chnam: self.chnam@,
            phunit: self.phunit@,
            anunit: self.anunit@,
            digunit: self.digunit@,
            fnom: self.fnom,
            cfgcnt: self.cfgcnt,
        }
    }
}

/// Configuration frame 1 or 2: the measurement schema of a stream.
#[derive(Debug, Clone, PartialEq)]
pub struct ConfigurationFrame1and2_2011 {
    pub prefix: PrefixFrame2011,
    /// Subdivision of the second that fracsec is based on; the low 24
    /// bits are meaningful.
    pub time_base: u32,
    /// Number of per-PMU blocks.
    pub num_pmu: u16,
    pub pmu_configs: Vec<PMUConfigurationFrame2011>,
    /// Positive: frames per second. Negative: seconds per frame,
    /// negated.
    pub data_rate: i16,
    pub chk: u16,
}

/// Mathematical image of a configuration frame.
pub ghost struct ConfigFrameView {
    pub prefix: PrefixFrame2011,
    pub time_base: u32,
    pub num_pmu: u16,
    pub pmu_configs: Seq<PmuConfigView>,
    pub data_rate: i16,
    pub chk: u16,
}

impl View for ConfigurationFrame1and2_2011 {
    type V = ConfigFrameView;

    open spec fn view(&self) -> ConfigFrameView {
        ConfigFrameView {
            prefix: self.prefix,
            time_base: self.time_base,
            num_pmu: self.num_pmu,
            pmu_configs: Seq::new(self.pmu_configs@.len(), |i: int| self.pmu_configs@[i]@),
            data_rate: self.data_rate,
            chk: self.chk,
        }
    }
}

// ---------------------------------------------------------------------
// Data frames
// ---------------------------------------------------------------------
/// Per-PMU measurement record whose freq and dfreq are 16-bit integers
/// (format bit 3 clear). Phasor, analog and digital regions are kept as
/// their raw big-endian bytes and decoded by the accessors.
#[derive(Debug, Clone, PartialEq)]
pub struct PMUDataFrameInt2011 {
    /// Bit-mapped status flags.
    pub stat: u16,
    /// Raw phasor bytes, `phnmr` values of 4 or 8 bytes each.
    pub phasors: Vec<u8>,
    /// Frequency deviation from nominal, millihertz.
    pub freq: i16,
    /// Rate of change of frequency, hundredths of Hz per second.
    pub dfreq: i16,
    /// Raw analog bytes, `annmr` values of 2 or 4 bytes each.
    pub analog: Vec<u8>,
    /// Raw digital bytes, one 2-byte word per digital channel.
    pub digital: Vec<u8>,
}

/// Per-PMU measurement record whose freq and dfreq are IEEE 754 binary32
/// values (format bit 3 set), kept as their big-endian bit patterns.
#[derive(Debug, Clone, PartialEq)]
pub struct PMUDataFrameFloat2011 {
    /// Bit-mapped status flags.
    pub stat: u16,
    /// Raw phasor bytes, `phnmr` values of 4 or 8 bytes each.
    pub phasors: Vec<u8>,
    /// Frequency, IEEE 754 binary32 bit pattern.
    pub freq: u32,
    /// Rate of change of frequency, IEEE 754 binary32 bit pattern.
    pub dfreq: u32,
    /// Raw analog bytes, `annmr` values of 2 or 4 bytes each.
    pub analog: Vec<u8>,
    /// Raw digital bytes, one 2-byte word per digital channel.
    pub digital: Vec<u8>,
}

/// A per-PMU record, tagged by the freq/dfreq encoding its PMU's format
/// word selects.
#[derive(Debug, Clone, PartialEq)]
pub enum DataFrameType {
    Float(PMUDataFrameFloat2011),
    Int(PMUDataFrameInt2011),
}

/// A data frame: one record per PMU of the governing configuration.
#[derive(Debug, Clone, PartialEq)]
pub struct DataFrame2011 {
    pub prefix: PrefixFrame2011,
    pub data: Vec<DataFrameType>,
    pub chk: u16,
}

/// Mathematical image of an integer-format record.
pub ghost struct PmuDataIntView {
    pub stat: u16,
    pub phasors: Seq<u8>,
    pub freq: i16,
    pub dfreq: i16,
    pub analog: Seq<u8>,
    pub digital: Seq<u8>,
}

/// Mathematical image of a float-format record.
pub ghost struct PmuDataFloatView {
    pub stat: u16,
    pub phasors: Seq<u8>,
    pub freq: u32,
    pub dfreq: u32,
    pub analog: Seq<u8>,
    pub digital: Seq<u8>,
}

/// Mathematical image of a tagged record.
pub ghost enum DataRecordView {
    Float(PmuDataFloatView),
    Int(PmuDataIntView),
}

/// Mathematical image of a data frame.
pub ghost struct DataFrameView {
    pub prefix: PrefixFrame2011,
    pub data: Seq<DataRecordView>,
    pub chk: u16,
}

impl View for PMUDataFrameInt2011 {
    type V = PmuDataIntView;

    open spec fn view(&self) -> PmuDataIntView {
        PmuDataIntView {
            stat: self.stat,
            phasors: self.phasors@,
            freq: self.freq,
            dfreq: self.dfreq,
            analog: self.analog@,
            digital: self.digital@,
        }
    }
}

impl View for PMUDataFrameFloat2011 {
    type V = PmuDataFloatView;

    open spec fn view(&self) -> PmuDataFloatView {
        PmuDataFloatView {
            stat: self.stat,
            phasors: self.phasors@,
            freq: self.freq,
            dfreq: self.dfreq,
            analog: self.analog@,
            digital: self.digital@,
        }
    }
}

impl View for DataFrameType {
    type V = DataRecordView;

    open spec fn view(&self) -> DataRecordView {
        match self {
            DataFrameType::Float(f) => DataRecordView::Float(f@),
            DataFrameType::Int(f) => DataRecordView::Int(f@),
        }
    }
}

impl View for DataFrame2011 {
    type V = DataFrameView;

    open spec fn view(&self) -> DataFrameView {
        DataFrameView {
            prefix: self.prefix,
            data: Seq::new(self.data@.len(), |i: int| self.data@[i]@),
            chk: self.chk,
        }
    }
}

// ---------------------------------------------------------------------
// 2024 revision structures: wire layout modeled, parsing left to a
// later revision.
// ---------------------------------------------------------------------
/// Header common to the 2024 configuration and data frames.
#[derive(Debug, Clone)]
pub struct HeaderFrame2024 {
    /// Synchronization bytes; the two bytes are read separately.
    pub sync: [u8; 2],
    /// Frame size in bytes.
    pub framesize: u16,
    /// Destination stream for commands, source stream otherwise.
    pub stream_id: u16,
    /// Timestamp, UNIX seconds.
    pub soc: u32,
    /// Leap second information flags.
    pub leap_byte: u8,
    /// Fractional second scaled by the time base, 24 bits.
    pub fracsec: [u8; 3],
}

/// PDC-level portion of a 2024 configuration frame.
#[derive(Debug, Clone)]
pub struct PDCConfigurationFrame2024 {
    /// Continuation index for fragmented frames; 0 means unfragmented.
    pub cont_idx: u16,
    /// Subdivision of the second that fracsec is based on.
    pub time_base: u32,
    /// PDC name, 1 to 256 bytes; the length-prefix encoding is left to
    /// a later revision.
    pub pdc_name: String,
    /// Number of PMUs included in the data frame.
    pub num_pmu: u16,
    /// Rate of data transmission for the composite frame.
    pub stream_data_rate: u16,
    /// PDC wait time in milliseconds.
    pub wait_time: u16,
    pub chk: u16,
}

/// Per-PMU portion of a 2024 configuration frame. Latitude, longitude
/// and elevation are IEEE 754 binary32 bit patterns.
#[derive(Debug, Clone)]
pub struct PMUConfigurationFrame2024 {
    pub pmu_name: String,
    /// 1 to 65534; 0 and 65535 are reserved.
    pub pmu_id: u16,
    /// Low 4 bits: version number from the sync word.
    pub pmu_version: u16,
    /// Global PMU id, RFC 4122 big-endian byte encoding.
    pub g_pmu_id: [u32; 4],
    /// Format word, as in the 2011 per-PMU block.
    pub format: u16,
    pub phnmr: u16,
    pub annmr: u16,
    /// Number of frequency signals.
    pub frnmr: u16,
    /// Number of rate-of-change-of-frequency signals.
    pub dfdtnmr: u16,
    pub dgnmr: u16,
    /// Channel names, length-prefixed, 1 to 256 bytes each.
    pub chnam: String,
    /// Conversion factors for phasor channels with flags.
    pub phscale: [u16; 16],
    /// Conversion factors for frequency channels.
    pub frscale: [u16; 8],
    /// Conversion factors for rate-of-change-of-frequency channels.
    pub dfdtscale: [u16; 8],
    /// Conversion factors for analog channels.
    pub anscale: [u16; 8],
    /// Mask words for digital status words.
    pub digunit: [u16; 4],
    /// Latitude in degrees, WGS84, binary32 bit pattern.
    pub pmu_lat: u32,
    /// Longitude in degrees, WGS84, binary32 bit pattern.
    pub pmu_lon: u32,
    /// Elevation in meters, WGS84, binary32 bit pattern.
    pub pmu_elev: u32,
    /// Capability and nominal-frequency flags.
    pub pmuflag: u16,
    /// Measurement window length in microseconds; -1 when unavailable.
    pub window: i32,
    /// Measurement group delay in microseconds; -1 when unavailable.
    pub grp_dly: i32,
    /// Positive: frames per second. Negative: seconds per frame,
    /// negated.
    pub pmu_data_rate: i16,
    /// Configuration change count.
    pub cfgcnt: u16,
}


// ---------------------------------------------------------------------
// Frame dispatcher
// ---------------------------------------------------------------------
/// The kind of frame a sync word announces.
#[derive(Debug, Clone, Copy, PartialEq, Eq, Structural)]
pub enum FrameKind {
    Data,
    Header,
    Config1,
    Config2,
    Config3,
    Command,
}

/// The kind of a complete frame held in `s`, or the first error the
/// walk meets: fewer than 4 bytes, a sync word without 0xAA, a frame
/// size below the 16-byte minimum or past the buffer, frame-type bits
/// that name no kind, or a CRC that does not match.
pub open spec fn spec_identify_frame(s: Seq<u8>) -> Result<FrameKind, ParseError> {
    if s.len() < 4 {
        Err(ParseError::TruncatedFrame { needed: 4, have: s.len() as usize })
    } else {
        let sync = be16_at(s, 0);
        let framesize = be16_at(s, 2);
        if sync & 0xFF00 != 0xAA00 {
            Err(ParseError::MalformedPrefix { sync })
        } else if framesize < 16 {
            Err(ParseError::TruncatedFrame { needed: 16, have: framesize as usize })
        } else if s.len() < framesize {
            Err(ParseError::TruncatedFrame { needed: framesize as usize, have: s.len() as usize })
        } else {
            let bits = spec_frame_type_bits(sync);
            if bits != 0 && bits != 1 && bits != 2 && bits != 3 && bits != 4 && bits != 5 {
                Err(ParseError::UnknownFrameType { frame_type: bits as u8 })
            } else {
                let stored = be16_at(s, framesize - 2);
                let computed = crc16(s.subrange(0, framesize - 2));
                if computed != stored {
                    Err(ParseError::CrcMismatch { expected: computed, actual: stored })
                } else if bits == 0 {
                    Ok(FrameKind::Data)
                } else if bits == 1 {
                    Ok(FrameKind::Header)
                } else if bits == 2 {
                    Ok(FrameKind::Config1)
                } else if bits == 3 {
                    Ok(FrameKind::Config2)
                } else if bits == 4 {
                    Ok(FrameKind::Command)
                } else {
                    Ok(FrameKind::Config3)
                }
            }
        }
    }
}

/// Recognizes the kind of the complete frame at the head of `buffer`
/// and validates its CRC: at least 4 bytes, an 0xAA sync byte, the
/// whole advertised frame present, known type bits, matching CRC.
pub fn identify_frame(buffer: &[u8]) -> (r: Result<FrameKind, ParseError>)
    ensures
        match r {
            Ok(k) => spec_identify_frame(buffer@) == Ok::<FrameKind, ParseError>(k),
            Err(e) => spec_identify_frame(buffer@) == Err::<FrameKind, ParseError>(e),
        },
{
    if buffer.len() < 4 {
        return Err(ParseError::TruncatedFrame { needed: 4, have: buffer.len() });
    }
    let sync = read_u16(buffer, 0);
    let framesize = read_u16(buffer, 2);
    if sync & 0xFF00 != 0xAA00 {
        return Err(ParseError::MalformedPrefix { sync });
    }
    if framesize < 16 {
        return Err(ParseError::TruncatedFrame { needed: 16, have: framesize as usize });
    }
    if buffer.len() < framesize as usize {
        return Err(ParseError::TruncatedFrame { needed: framesize as usize, have: buffer.len() });
    }
    let bits = (sync >> 4) & 0x7;
    if bits > 5 {
        proof {
            assert((sync >> 4) & 0x7 < 256) by (bit_vector);
        }
        return Err(ParseError::UnknownFrameType { frame_type: bits as u8 });
    }
    let fs = framesize as usize;
    let body = &buffer[0..fs - 2];
    let computed = calculate_crc(body);
    let stored = read_u16(buffer, fs - 2);
    proof {
        assert(body@ =~= buffer@.subrange(0, framesize - 2));
    }
    if computed != stored {
        return Err(ParseError::CrcMismatch { expected: computed, actual: stored });
    }
    if bits == 0 {
        Ok(FrameKind::Data)
    } else if bits == 1 {
        Ok(FrameKind::Header)
    } else if bits == 2 {
        Ok(FrameKind::Config1)
    } else if bits == 3 {
        Ok(FrameKind::Config2)
    } else if bits == 4 {
        Ok(FrameKind::Command)
    } else {
        Ok(FrameKind::Config3)
    }
}

/// Whether a command frame's fields satisfy the wire invariants that
/// encoding demands, or the first violation: a sync word that is not a
/// command sync, a command code that is not a standard one, a payload
/// on a command other than the extended one, or a frame size that does
/// not match the payload.
pub open spec fn spec_command_check(v: CommandFrameView) -> Result<(), ParseError> {
    if v.prefix.sync & 0xFF00 != 0xAA00 || spec_frame_type_bits(v.prefix.sync) != 4 {
        Err(ParseError::EncodingError { offset: 0 })
    } else if v.command != 1 && v.command != 2 && v.command != 3 && v.command != 4 && v.command != 5
        && v.command != 6 && v.command != 8 {
        Err(ParseError::EncodingError { offset: 14 })
    } else if v.command != 8 && v.extframe is Some {
        Err(ParseError::EncodingError { offset: 16 })
    } else if v.prefix.framesize != 18 + (match v.extframe {
        Some(e) => e.len() as int,
        None => 0,
    }) {
        Err(ParseError::EncodingError { offset: 2 })
    } else {
        Ok(())
    }
}

impl CommandFrame2011 {
    /// Encodes the frame after checking its invariants: the sync word
    /// must announce a command frame, the command must be one of the
    /// standard codes, only the extended command may carry a payload,
    /// and the advertised frame size must match. The bytes are those of
    /// `to_hex`.
    pub fn encode(&self) -> (r: Result<Vec<u8>, ParseError>)
        ensures
            match r {
                Ok(bytes) => spec_command_check(self@) == Ok::<(), ParseError>(())
                    && bytes@ =~= spec_command_bytes(self@),
                Err(e) => spec_command_check(self@) == Err::<(), ParseError>(e),
            },
    {
        if self.prefix.sync & 0xFF00 != 0xAA00 || (self.prefix.sync >> 4) & 0x7 != 4 {
            return Err(ParseError::EncodingError { offset: 0 });
        }
        if self.command != 1 && self.command != 2 && self.command != 3 && self.command != 4
            && self.command != 5 && self.command != 6 && self.command != 8 {
            return Err(ParseError::EncodingError { offset: 14 });
        }
        let ext_len: usize = match &self.extframe {
            Some(e) => {
                if self.command != 8 {
                    return Err(ParseError::EncodingError { offset: 16 });
                }
                e.len()
            },
            None => 0,
        };
        if !(ext_len <= 0xFFFF - 18 && self.prefix.framesize as usize == 18 + ext_len) {
            return Err(ParseError::EncodingError { offset: 2 });
        }
        Ok(self.to_hex())
    }
}

/// Round trip: when a buffer decodes as a command frame, encoding the
/// decoded frame reproduces the buffer, byte for byte, over the whole
/// advertised frame size.
pub proof fn lemma_command_round_trip(s: Seq<u8>)
    requires
        spec_parse_command(s) is Ok,
    ensures
        spec_command_bytes(spec_parse_command(s)->Ok_0) =~= s.subrange(
            0,
            spec_parse_command(s)->Ok_0.prefix.framesize as int,
        ),
{
    let v = spec_parse_command(s)->Ok_0;
    let fs = v.prefix.framesize as int;
    lemma_prefix_round_trip(s);
    lemma_be16_write(s, 14);
    let body = spec_prefix_bytes(v.prefix) + u16_be(v.command) + match v.extframe {
        Some(e) => e,
        None => Seq::<u8>::empty(),
    };
    assert(body =~= s.subrange(0, fs - 2));
    lemma_be16_write(s, fs - 2);
    assert(u16_be(crc16(body)) =~= s.subrange(fs - 2, fs));
    assert(spec_command_bytes(v) =~= s.subrange(0, fs));
}

} // verus!
