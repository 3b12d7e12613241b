use pmu::calculate_crc;
use pmu::columnar::{ChannelDataType, ChannelInfo, ColumnData};
use pmu::frame_parser::{parse_config_frame_1and2, parse_data_frames};
use pmu::frames::{CommandFrame2011, DataFrameType, FrameKind, PrefixFrame2011};
use pmu::measurements::{PMUValues, PhasorValue};
use pmu::ParseError;

fn push_u16(v: &mut Vec<u8>, x: u16) {
    v.extend_from_slice(&x.to_be_bytes());
}

fn push_u32(v: &mut Vec<u8>, x: u32) {
    v.extend_from_slice(&x.to_be_bytes());
}

fn push_i16(v: &mut Vec<u8>, x: i16) {
    v.extend_from_slice(&x.to_be_bytes());
}

fn push_f32(v: &mut Vec<u8>, x: f32) {
    v.extend_from_slice(&x.to_bits().to_be_bytes());
}

fn name16(s: &str) -> Vec<u8> {
    let mut b = s.as_bytes().to_vec();
    assert!(b.len() <= 16);
    while b.len() < 16 {
        b.push(b' ');
    }
    b
}

fn finish_frame(mut v: Vec<u8>) -> Vec<u8> {
    let crc = calculate_crc(&v);
    push_u16(&mut v, crc);
    v
}

/// One per-PMU configuration block with the values of the single-PMU
/// standard example: format 4, 4 phasors, 3 analogs, 1 digital word.
fn pmu_block() -> Vec<u8> {
    let mut v = Vec::new();
    v.extend_from_slice(&name16("Station A"));
    push_u16(&mut v, 7734); // idcode
    push_u16(&mut v, 4); // format: analogs float, all else integer, rectangular
    push_u16(&mut v, 4); // phnmr
    push_u16(&mut v, 3); // annmr
    push_u16(&mut v, 1); // dgnmr
    for n in ["VA", "VB", "VC", "I1", "ANALOG1", "ANALOG2", "ANALOG3"] {
        v.extend_from_slice(&name16(n));
    }
    v.extend_from_slice(&name16("BREAKER 1 STATUS"));
    for i in 2..=9 {
        v.extend_from_slice(&name16(&format!("BREAKER {} STATUS", i)));
    }
    for i in 10..=16 {
        v.extend_from_slice(&name16(&format!("BREAKER {} STAT", i)));
    }
    for _ in 0..3 {
        push_u32(&mut v, 915527); // voltage scale
    }
    push_u32(&mut v, 0x0100_0000 | 45776); // current scale
    for _ in 0..3 {
        push_u32(&mut v, 1); // analog scale
    }
    push_u32(&mut v, 0x0000_FFFF); // digital mask word
    push_u16(&mut v, 0); // fnom: 60 Hz
    push_u16(&mut v, 22); // cfgcnt
    assert_eq!(v.len(), 430);
    v
}

/// The single-PMU configuration frame of the standard example:
/// framesize 454, idcode 7734, time base 1000000, data rate 30.
fn config_fixture() -> Vec<u8> {
    let mut v = Vec::new();
    push_u16(&mut v, 0xAA31); // sync: configuration 2, version 1
    push_u16(&mut v, 454); // framesize
    push_u16(&mut v, 7734); // idcode
    push_u32(&mut v, 1_149_577_200); // soc
    push_u32(&mut v, 463000); // fracsec
    push_u32(&mut v, 1_000_000); // time_base
    push_u16(&mut v, 1); // num_pmu
    v.extend_from_slice(&pmu_block());
    push_u16(&mut v, 30); // data_rate
    finish_frame(v)
}

/// A two-PMU configuration frame: framesize 884.
fn config_fixture_multi() -> Vec<u8> {
    let mut v = Vec::new();
    push_u16(&mut v, 0xAA31);
    push_u16(&mut v, 884);
    push_u16(&mut v, 7734);
    push_u32(&mut v, 1_149_577_200);
    push_u32(&mut v, 463000);
    push_u32(&mut v, 1_000_000);
    push_u16(&mut v, 2);
    v.extend_from_slice(&pmu_block());
    v.extend_from_slice(&pmu_block());
    push_u16(&mut v, 30);
    finish_frame(v)
}

/// The data frame of the standard example: framesize 52, one record
/// with rectangular integer phasors, integer freq, float analogs.
fn data_fixture() -> Vec<u8> {
    let mut v = Vec::new();
    push_u16(&mut v, 0xAA01); // sync: data, version 1
    push_u16(&mut v, 52); // framesize
    push_u16(&mut v, 7734); // idcode
    push_u32(&mut v, 1_149_580_800); // soc
    push_u32(&mut v, 16817); // fracsec
    push_u16(&mut v, 0x0000); // stat
    for (re, im) in [(14635i16, 0i16), (-7318, -12676), (-7318, 12675), (1092, 0)] {
        push_i16(&mut v, re);
        push_i16(&mut v, im);
    }
    push_i16(&mut v, 2500); // freq
    push_i16(&mut v, 0); // dfreq
    push_f32(&mut v, 100.0);
    push_f32(&mut v, 1000.0);
    push_f32(&mut v, 10000.0);
    push_u16(&mut v, 0b0011_1100_0001_0010); // digital word
    finish_frame(v)
}

/// The 18-byte command frame of the standard example.
fn cmd_fixture() -> Vec<u8> {
    let mut v = Vec::new();
    push_u16(&mut v, 0xAA41);
    push_u16(&mut v, 18);
    push_u16(&mut v, 7734);
    push_u32(&mut v, 1_149_591_600);
    push_u32(&mut v, 252_428_240);
    push_u16(&mut v, 2); // turn on transmission
    finish_frame(v)
}

#[test]
fn test_calculate_crc_standard_values() {
    // Test values from Table B.1 of IEEE C37.118.2-2011 standard
    let test_cases = [
        (vec![0x41, 0x42, 0x43, 0x44], 0xBFFA),
        (vec![0x31, 0x32, 0x33, 0x34, 0x35, 0x36], 0x2EF4),
        (vec![0x61, 0x62, 0x63], 0x514A),
    ];

    for (input, expected_crc) in test_cases.iter() {
        let calculated_crc = calculate_crc(input);
        assert_eq!(
            calculated_crc, *expected_crc,
            "CRC mismatch for input: {:?}",
            input
        );
    }
}

#[test]
fn test_crc_validation() {
    let frames = [cmd_fixture(), config_fixture(), data_fixture()];

    for buffer in frames.iter() {
        let frame_size = u16::from_be_bytes([buffer[2], buffer[3]]) as usize;
        let calculated_crc = calculate_crc(&buffer[..frame_size - 2]);
        let frame_crc = u16::from_be_bytes([buffer[frame_size - 2], buffer[frame_size - 1]]);

        assert_eq!(calculated_crc, frame_crc, "CRC mismatch for frame");
    }
}

#[test]
fn test_command_frame_to_hex() {
    let command_frame = CommandFrame2011 {
        prefix: PrefixFrame2011 {
            sync: 0xAA41,
            framesize: 18,
            idcode: 7734,
            soc: 1149591600,
            fracsec: 252428240,
        },
        command: 2,
        extframe: None,
        chk: 0,
    };

    let frame_bytes = command_frame.to_hex();
    let file_bytes = cmd_fixture();

    assert_eq!(
        frame_bytes, file_bytes,
        "Generated command frame does not match the file contents"
    );
}

#[test]
fn test_parse_config_frame() {
    let buffer = config_fixture();
    let result = parse_config_frame_1and2(&buffer);

    assert!(result.is_ok(), "Failed to parse configuration frame");

    let config_frame = result.unwrap();

    assert_eq!(config_frame.prefix.framesize, 454);
    assert_eq!(config_frame.prefix.idcode, 7734);
    assert_eq!(config_frame.time_base, 1000000);
    assert_eq!(config_frame.num_pmu, 1);
    assert_eq!(config_frame.data_rate, 30);

    let pmu_config = &config_frame.pmu_configs[0];
    assert_eq!(pmu_config.stn, *b"Station A       ");
    assert_eq!(pmu_config.idcode, 7734);
    assert_eq!(pmu_config.format, 4);
    assert_eq!(pmu_config.phnmr, 4);
    assert_eq!(pmu_config.annmr, 3);
    assert_eq!(pmu_config.dgnmr, 1);

    let calculated_crc = calculate_crc(&buffer[..buffer.len() - 2]);
    assert_eq!(
        calculated_crc, config_frame.chk,
        "CRC mismatch in configuration frame"
    );
}

#[test]
fn test_parse_config_frame_multi() {
    let buffer = config_fixture_multi();
    let result = parse_config_frame_1and2(&buffer);

    assert!(result.is_ok(), "Failed to parse configuration frame");

    let config_frame = result.unwrap();

    assert_eq!(config_frame.prefix.framesize, 884);
    assert_eq!(config_frame.prefix.idcode, 7734);
    assert_eq!(config_frame.time_base, 1000000);
    assert_eq!(config_frame.num_pmu, 2);
    assert_eq!(config_frame.data_rate, 30);

    let pmu_config = &config_frame.pmu_configs[0];
    assert_eq!(pmu_config.idcode, 7734);
    assert_eq!(pmu_config.format, 4);
    assert_eq!(pmu_config.phnmr, 4);
    assert_eq!(pmu_config.annmr, 3);
    assert_eq!(pmu_config.dgnmr, 1);
    assert_eq!(config_frame.pmu_configs.len(), 2);

    let calculated_crc = calculate_crc(&buffer[..buffer.len() - 2]);
    assert_eq!(
        calculated_crc, config_frame.chk,
        "CRC mismatch in configuration frame"
    );
}

#[test]
fn test_calc_data_frame_size() {
    let config_buffer = config_fixture();
    let config_frame = parse_config_frame_1and2(&config_buffer).unwrap();

    let calculated_size = config_frame.calc_data_frame_size();

    let data_buffer = data_fixture();
    let actual_size = data_buffer.len();
    let prefix_size = u16::from_be_bytes([data_buffer[2], data_buffer[3]]);

    assert_eq!(calculated_size, actual_size);
    assert_eq!(calculated_size, prefix_size as usize);
    assert_eq!(actual_size as u16, prefix_size);
}

#[test]
fn test_parse_data_frame() {
    let config_buffer = config_fixture();
    let config_result = parse_config_frame_1and2(&config_buffer);
    assert!(config_result.is_ok(), "Failed to parse configuration frame");
    let config_frame = config_result.unwrap();

    let pmu_config = &config_frame.pmu_configs[0];
    assert_eq!(pmu_config.phasor_size(), 4);
    assert_eq!(pmu_config.analog_size(), 4);
    assert_eq!(pmu_config.freq_dfreq_size(), 2);

    let data_buffer = data_fixture();
    let data_result = parse_data_frames(&data_buffer, &config_frame);
    assert!(data_result.is_ok(), "Failed to parse data frame");
    let data_frame = data_result.unwrap();

    // All test data is based on Table D.1 of IEEE C37.118.2 - 2011
    assert_eq!(data_frame.prefix.framesize, 52);
    assert_eq!(data_frame.prefix.idcode, 7734);
    assert_eq!(data_frame.prefix.soc, 1149580800);
    assert_eq!(data_frame.prefix.fracsec, 16817);

    assert_eq!(data_frame.data.len(), 1);

    let pmu_data = match &data_frame.data[0] {
        DataFrameType::Int(data) => data,
        _ => panic!("Expected PMUDataFrameFloating"),
    };

    assert_eq!(pmu_data.stat, 0x0000);
    assert_eq!(pmu_data.phasors.len(), 16); // Size in Bytes
    assert_eq!(pmu_data.freq, 2500);
    assert_eq!(pmu_data.dfreq, 0);
    assert_eq!(pmu_data.analog.len(), 12); // Size in Bytes
    assert_eq!(pmu_data.digital.len(), 2); // Size in Bytes

    let phasor_values = pmu_data.parse_phasors(pmu_config);

    let is_polar = pmu_config.is_phasor_polar();
    assert_eq!(is_polar, false);

    assert_eq!(phasor_values[0], PhasorValue::IntRect(14635, 0));
    assert_eq!(phasor_values[1], PhasorValue::IntRect(-7318, -12676));
    assert_eq!(phasor_values[2], PhasorValue::IntRect(-7318, 12675));
    assert_eq!(phasor_values[3], PhasorValue::IntRect(1092, 0));

    let analog_values = pmu_data.parse_analogs(pmu_config);
    assert_eq!(
        analog_values,
        PMUValues::Float(vec![
            100.0f32.to_bits(),
            1000.0f32.to_bits(),
            10000.0f32.to_bits()
        ])
    );

    let digital_values = pmu_data.parse_digitals();
    assert_eq!(digital_values[0], 0b0011110000010010);

    let calculated_crc = calculate_crc(&data_buffer[..data_buffer.len() - 2]);
    assert_eq!(calculated_crc, data_frame.chk, "CRC mismatch in data frame");
}

#[test]
fn test_channel_name_extraction() {
    let config_buffer = config_fixture();
    let config_frame = parse_config_frame_1and2(&config_buffer).unwrap();
    let pmu_config = &config_frame.pmu_configs[0];

    let phasor_columns = pmu_config.get_phasor_columns();
    assert_eq!(phasor_columns.len(), 4);
    assert_eq!(phasor_columns[0], "Station A_7734_VA");
    assert_eq!(phasor_columns[1], "Station A_7734_VB");
    assert_eq!(phasor_columns[2], "Station A_7734_VC");
    assert_eq!(phasor_columns[3], "Station A_7734_I1");

    let analog_columns = pmu_config.get_analog_columns();
    assert_eq!(analog_columns.len(), 3);
    assert_eq!(analog_columns[0], "Station A_7734_ANALOG1");
    assert_eq!(analog_columns[1], "Station A_7734_ANALOG2");
    assert_eq!(analog_columns[2], "Station A_7734_ANALOG3");

    let digital_columns = pmu_config.get_digital_columns();
    assert_eq!(digital_columns.len(), 1);
    assert_eq!(digital_columns[0], "Station A_7734_BREAKER 1 STATUS");
}

fn find_channel<'a>(map: &'a [ChannelInfo], name: &str) -> &'a ChannelInfo {
    map.iter()
        .find(|c| c.full_name == name)
        .unwrap_or_else(|| panic!("channel {} not found", name))
}

#[test]
fn test_arrow_frame_creation() {
    let config_buffer = config_fixture();
    let config_frame = parse_config_frame_1and2(&config_buffer).unwrap();

    let channel_map = config_frame.get_channel_map();

    // 1 timestamp + 1 stat + 2 * 4 phasors + 2 + 3 analogs + 16 digital bits
    assert_eq!(channel_map.len(), 31);
    assert_eq!(channel_map[0].full_name, "timestamp");
    assert_eq!(channel_map[0].offset, 6);
    assert_eq!(channel_map[0].size, 8);
    assert_eq!(channel_map[0].data_type, ChannelDataType::TimestampMicros);

    let data_frame = data_fixture();
    let frame_size = data_frame.len();

    let mut buffer = vec![0u8; 30 * 1024];
    let num_frames = buffer.len() / frame_size;
    assert_eq!(num_frames, 590);
    for i in 0..num_frames {
        let start = i * frame_size;
        buffer[start..start + frame_size].copy_from_slice(&data_frame);
    }

    let freq_info = find_channel(&channel_map, "Station A_7734_FREQ");
    match pmu::columnar::extract_channel_values(&buffer, frame_size, freq_info) {
        ColumnData::Int16(v) => {
            assert_eq!(v.len(), num_frames);
            assert!(v.iter().all(|&x| x == 2500), "Frequency value mismatch");
        }
        _ => panic!("Failed to get frequency column"),
    }

    let vax = find_channel(&channel_map, "Station A_7734_VA_X");
    match pmu::columnar::extract_channel_values(&buffer, frame_size, vax) {
        ColumnData::Int16(v) => {
            assert_eq!(v.len(), num_frames);
            assert!(v.iter().all(|&x| x == 14635), "Phasor X value mismatch");
        }
        _ => panic!("Failed to get phasor X column"),
    }

    let vay = find_channel(&channel_map, "Station A_7734_VA_Y");
    match pmu::columnar::extract_channel_values(&buffer, frame_size, vay) {
        ColumnData::Int16(v) => {
            assert_eq!(v.len(), num_frames);
            assert!(v.iter().all(|&x| x == 0), "Phasor Y mismatch");
        }
        _ => panic!("Failed to get phasor Y column"),
    }

    let an1 = find_channel(&channel_map, "Station A_7734_ANALOG1");
    match pmu::columnar::extract_channel_values(&buffer, frame_size, an1) {
        ColumnData::Float32Bits(v) => {
            assert_eq!(v.len(), num_frames);
            assert!(
                v.iter().all(|&x| f32::from_bits(x) == 100.0),
                "Analog value mismatch"
            );
        }
        _ => panic!("Failed to get analog column"),
    }

    let brk = find_channel(&channel_map, "Station A_7734_BREAKER 1 STATUS");
    match pmu::columnar::extract_channel_values(&buffer, frame_size, brk) {
        ColumnData::UInt16(v) => {
            assert_eq!(v.len(), num_frames);
            assert!(
                v.iter().all(|&x| x == 0b0011110000010010),
                "Digital value mismatch"
            );
        }
        _ => panic!("Failed to get digital column"),
    }

    let timestamps =
        pmu::columnar::extract_timestamps(&buffer, frame_size, config_frame.time_base);
    assert_eq!(timestamps.len(), num_frames);
    assert_eq!(timestamps[0], 1_149_580_800_i64 * 1_000_000 + 16_817);
}

#[test]
fn test_prefix_round_trip() {
    let p = PrefixFrame2011 {
        sync: 0xAA01,
        framesize: 52,
        idcode: 7734,
        soc: 1_149_580_800,
        fracsec: 16_817,
    };
    let bytes = p.to_hex();
    let q = PrefixFrame2011::from_hex(&bytes).unwrap();
    assert_eq!(p, q);
}

#[test]
fn test_command_constructors() {
    let cases = [
        (CommandFrame2011::new_turn_off_transmission(9), 1u16),
        (CommandFrame2011::new_turn_on_transmission(9), 2),
        (CommandFrame2011::new_send_header_frame(9), 3),
        (CommandFrame2011::new_send_config_frame1(9), 4),
        (CommandFrame2011::new_send_config_frame2(9), 5),
        (CommandFrame2011::new_send_config_frame3(9), 6),
        (CommandFrame2011::new_extended_frame(9), 8),
    ];
    for (frame, code) in cases {
        assert_eq!(frame.command, code);
        assert_eq!(frame.prefix.sync, 0xAA41);
        assert_eq!(frame.prefix.framesize, 18);
        assert_eq!(frame.prefix.idcode, 9);
        assert_eq!(frame.prefix.soc, 0);
        assert_eq!(frame.prefix.fracsec, 0);
        assert!(frame.extframe.is_none());
        assert_eq!(frame.to_hex().len(), 18);
    }
}

#[test]
fn test_command_round_trip() {
    let bytes = cmd_fixture();
    let decoded = CommandFrame2011::from_hex(&bytes).unwrap();
    assert_eq!(decoded.command, 2);
    assert_eq!(decoded.prefix.idcode, 7734);
    assert!(decoded.extframe.is_none());
    assert_eq!(decoded.to_hex(), bytes);
    assert_eq!(decoded.encode().unwrap(), bytes);
}

#[test]
fn test_command_encode_errors() {
    let mut f = CommandFrame2011::new_turn_on_transmission(7734);
    f.prefix.sync = 0xAB41;
    assert_eq!(f.encode(), Err(ParseError::EncodingError { offset: 0 }));

    let mut f = CommandFrame2011::new_turn_on_transmission(7734);
    f.command = 7;
    assert_eq!(f.encode(), Err(ParseError::EncodingError { offset: 14 }));

    let mut f = CommandFrame2011::new_turn_on_transmission(7734);
    f.extframe = Some(vec![1, 2, 3]);
    assert_eq!(f.encode(), Err(ParseError::EncodingError { offset: 16 }));

    let mut f = CommandFrame2011::new_extended_frame(7734);
    f.extframe = Some(vec![1, 2, 3]);
    assert_eq!(f.encode(), Err(ParseError::EncodingError { offset: 2 }));
    f.prefix.framesize = 21;
    let bytes = f.encode().unwrap();
    assert_eq!(bytes.len(), 21);
    assert_eq!(&bytes[16..19], &[1, 2, 3]);
}

#[test]
fn test_parse_errors() {
    // Buffer shorter than a prefix.
    assert_eq!(
        parse_config_frame_1and2(&[0xAA, 0x31]),
        Err(ParseError::TruncatedFrame { needed: 14, have: 2 })
    );

    // Sync byte that is not 0xAA.
    let mut bad_sync = config_fixture();
    bad_sync[0] = 0xBB;
    assert_eq!(
        parse_config_frame_1and2(&bad_sync),
        Err(ParseError::MalformedPrefix { sync: 0xBB31 })
    );

    // Data-frame type bits handed to the configuration parser.
    let data = data_fixture();
    assert_eq!(
        parse_config_frame_1and2(&data),
        Err(ParseError::UnknownFrameType { frame_type: 0 })
    );

    // Buffer shorter than the advertised frame size.
    let config = config_fixture();
    assert_eq!(
        parse_config_frame_1and2(&config[..100]),
        Err(ParseError::TruncatedFrame {
            needed: 454,
            have: 100
        })
    );

    // A corrupted byte flips the CRC.
    let mut bad_crc = config_fixture();
    bad_crc[20] ^= 0xFF;
    match parse_config_frame_1and2(&bad_crc) {
        Err(ParseError::CrcMismatch { expected, actual }) => assert_ne!(expected, actual),
        other => panic!("expected CrcMismatch, got {:?}", other),
    }

    // A block that does not fit the advertised frame size.
    let mut bad_counts = config_fixture();
    bad_counts[40] = 0xFF; // phnmr high byte: blocks overrun the frame
    let crc = calculate_crc(&bad_counts[..452]);
    bad_counts[452..454].copy_from_slice(&crc.to_be_bytes());
    assert_eq!(
        parse_config_frame_1and2(&bad_counts),
        Err(ParseError::InvalidChannelCount { offset: 20 })
    );
}

#[test]
fn test_data_frame_errors() {
    let config_frame = parse_config_frame_1and2(&config_fixture()).unwrap();

    // A data frame whose CRC does not match.
    let mut bad = data_fixture();
    bad[20] ^= 0x01;
    match parse_data_frames(&bad, &config_frame) {
        Err(ParseError::CrcMismatch { expected, actual }) => assert_ne!(expected, actual),
        other => panic!("expected CrcMismatch, got {:?}", other),
    }

    // A frame too small for the configured records.
    let mut small = data_fixture();
    small[3] = 40; // framesize 40 < 52
    let crc = calculate_crc(&small[..38]);
    small[38..40].copy_from_slice(&crc.to_be_bytes());
    assert_eq!(
        parse_data_frames(&small[..40], &config_frame),
        Err(ParseError::TruncatedFrame {
            needed: 50,
            have: 38
        })
    );
}

#[test]
fn test_identify_frame() {
    assert_eq!(
        pmu::frames::identify_frame(&config_fixture()),
        Ok(FrameKind::Config2)
    );
    assert_eq!(
        pmu::frames::identify_frame(&data_fixture()),
        Ok(FrameKind::Data)
    );
    assert_eq!(
        pmu::frames::identify_frame(&cmd_fixture()),
        Ok(FrameKind::Command)
    );
    assert_eq!(
        pmu::frames::identify_frame(&[0xAA]),
        Err(ParseError::TruncatedFrame { needed: 4, have: 1 })
    );
    let mut cfg1 = config_fixture();
    cfg1[1] = 0x21; // configuration 1 type bits
    let crc = calculate_crc(&cfg1[..452]);
    cfg1[452..454].copy_from_slice(&crc.to_be_bytes());
    assert_eq!(pmu::frames::identify_frame(&cfg1), Ok(FrameKind::Config1));
    let mut unknown = config_fixture();
    unknown[1] = 0x61; // type bits 110: no kind
    assert_eq!(
        pmu::frames::identify_frame(&unknown),
        Err(ParseError::UnknownFrameType { frame_type: 6 })
    );
}

#[test]
fn test_station_name_and_channels() {
    let config_frame = parse_config_frame_1and2(&config_fixture()).unwrap();
    let pmu_config = &config_frame.pmu_configs[0];
    assert_eq!(pmu_config.station_name(), "Station A");
    let names = pmu_config.channel_names();
    assert_eq!(names.len(), 23);
    assert_eq!(names[0], "VA");
    assert_eq!(names[4], "ANALOG1");
    assert_eq!(names[7], "BREAKER 1 STATUS");
    assert_eq!(names[8], "BREAKER 2 STATUS");
}

#[test]
fn test_timestamp_scaling() {
    // One frame, time base 2: half-second fractions become 500000 us,
    // and the time-quality bits of fracsec are masked off.
    let mut frame = vec![0u8; 16];
    frame[0] = 0xAA;
    frame[1] = 0x01;
    frame[3] = 16;
    frame[6..10].copy_from_slice(&10u32.to_be_bytes());
    frame[10..14].copy_from_slice(&0xFF00_0001u32.to_be_bytes());
    let ts = pmu::columnar::extract_timestamps(&frame, 16, 2);
    assert_eq!(ts.len(), 1);
    assert_eq!(ts[0], 10 * 1_000_000 + 500_000);

    // The general rule: fracsec * 1000000 / time_base, rounded half up.
    let mut frame2 = vec![0u8; 16];
    frame2[10..14].copy_from_slice(&7u32.to_be_bytes());
    let ts2 = pmu::columnar::extract_timestamps(&frame2, 16, 30);
    assert_eq!(ts2[0], (7 * 1_000_000 + 15) / 30);
}

#[test]
fn test_config_with_no_pmus() {
    // num_pmu = 0 is legal and yields an empty schema.
    let mut v = Vec::new();
    push_u16(&mut v, 0xAA21); // configuration 1
    push_u16(&mut v, 24);
    push_u16(&mut v, 1);
    push_u32(&mut v, 0);
    push_u32(&mut v, 0);
    push_u32(&mut v, 1_000_000);
    push_u16(&mut v, 0); // num_pmu
    push_u16(&mut v, 30);
    let buffer = finish_frame(v);
    let cfg = parse_config_frame_1and2(&buffer).unwrap();
    assert_eq!(cfg.num_pmu, 0);
    assert_eq!(cfg.pmu_configs.len(), 0);
    assert_eq!(cfg.calc_data_frame_size(), 16);
    let map = cfg.get_channel_map();
    assert_eq!(map.len(), 1); // only the synthetic timestamp column
}

#[test]
fn test_float_format_data() {
    // A PMU whose format selects polar float phasors, float analogs and
    // float freq: one phasor, one analog, no digitals.
    let mut block = Vec::new();
    block.extend_from_slice(&name16("Station B"));
    push_u16(&mut block, 41);
    push_u16(&mut block, 0x000F); // polar, float phasors, analogs, freq
    push_u16(&mut block, 1); // phnmr
    push_u16(&mut block, 1); // annmr
    push_u16(&mut block, 0); // dgnmr
    block.extend_from_slice(&name16("V1"));
    block.extend_from_slice(&name16("A1"));
    push_u32(&mut block, 915527);
    push_u32(&mut block, 1);
    push_u16(&mut block, 1); // fnom: 50 Hz
    push_u16(&mut block, 0);

    let mut v = Vec::new();
    push_u16(&mut v, 0xAA31);
    push_u16(&mut v, (24 + block.len()) as u16);
    push_u16(&mut v, 41);
    push_u32(&mut v, 0);
    push_u32(&mut v, 0);
    push_u32(&mut v, 1_000_000);
    push_u16(&mut v, 1);
    v.extend_from_slice(&block);
    push_u16(&mut v, 30);
    let config = finish_frame(v);
    let cfg = parse_config_frame_1and2(&config).unwrap();
    let b = &cfg.pmu_configs[0];
    assert_eq!(b.phasor_size(), 8);
    assert_eq!(b.analog_size(), 4);
    assert_eq!(b.freq_dfreq_size(), 4);
    assert!(b.is_phasor_polar());

    // Record: stat 2 + phasor 8 + freq 4 + dfreq 4 + analog 4 = 22.
    assert_eq!(cfg.calc_data_frame_size(), 14 + 22 + 2);
    let mut d = Vec::new();
    push_u16(&mut d, 0xAA01);
    push_u16(&mut d, 38);
    push_u16(&mut d, 41);
    push_u32(&mut d, 77);
    push_u32(&mut d, 0);
    push_u16(&mut d, 0); // stat
    push_f32(&mut d, 2.5); // magnitude
    push_f32(&mut d, -0.5); // angle
    push_f32(&mut d, 60.01); // freq
    push_f32(&mut d, 0.0); // dfreq
    push_f32(&mut d, 7.0); // analog
    let data = finish_frame(d);
    let frame = parse_data_frames(&data, &cfg).unwrap();
    let rec = match &frame.data[0] {
        DataFrameType::Float(r) => r,
        _ => panic!("expected a float record"),
    };
    assert_eq!(f32::from_bits(rec.freq), 60.01);
    assert_eq!(f32::from_bits(rec.dfreq), 0.0);
    let phasors = rec.parse_phasors(&cfg.pmu_configs[0]);
    assert_eq!(
        phasors[0],
        PhasorValue::FloatPolar(2.5f32.to_bits(), (-0.5f32).to_bits())
    );
    let analogs = rec.parse_analogs(&cfg.pmu_configs[0]);
    assert_eq!(analogs, PMUValues::Float(vec![7.0f32.to_bits()]));
}
