use helic::drivers::{frame, Command};
use helic::optoncdt::{
    classify_distance, CommandReply, CommandReplyParser, DistanceClass, ParseEvent, Parser,
    RawValue,
};
use helic::sample_rate::{SampleRate, SYSTEM_CLOCK_HZ};
use helic::ssi::{deinterleave_pair, SsiError, SsiFormat};

// ---- AD5064 words ----

#[test]
fn frame_layout_matches_datasheet() {
    assert_eq!(
        frame(Command::WriteAndUpdate, 2, 0xABCD),
        [0x03, 0x2A, 0xBC, 0xD0]
    );
    assert_eq!(frame(Command::SoftwareReset, 0, 0), [0x06, 0x00, 0x00, 0x00]);
}

#[test]
fn frame_carries_every_command_code_and_full_scale_data() {
    assert_eq!(Command::DaisyChainDisable.code(), 8);
    assert_eq!(Command::PowerUpDown.code(), 4);
    assert_eq!(frame(Command::WriteInputReg, 3, 0xFFFF), [0x00, 0x3F, 0xFF, 0xF0]);
    assert_eq!(frame(Command::LdacMaskReg, 1, 0x0001), [0x05, 0x10, 0x00, 0x10]);
}

// ---- sample-rate presets ----

#[test]
fn sample_rate_presets_are_crystal_exact() {
    for (rate, hz) in [
        (SampleRate::Hz1000, 1000u64),
        (SampleRate::Hz2000, 2000),
        (SampleRate::Hz4000, 4000),
        (SampleRate::Hz8000, 8000),
    ] {
        let (div, top) = rate.pwm_params();
        assert_eq!(div as u64 * (top as u64 + 1) * hz, SYSTEM_CLOCK_HZ);
        assert_eq!(rate.period_us() * hz, 1_000_000);
    }
    assert_eq!(SampleRate::Hz8000.pwm_params(), (2, 9374));
    assert_eq!(SampleRate::Hz8000.period_us(), 125);
}

// ---- optoNCDT stream ----

fn encode(value: u32, first: bool) -> [u8; 3] {
    let h_flags = if first { 0b10 } else { 0b11 };
    [
        (value & 0x3F) as u8,
        0b0100_0000 | ((value >> 6) & 0x3F) as u8,
        (h_flags << 6) | ((value >> 12) & 0x3F) as u8,
    ]
}

#[test]
fn round_trips_encoded_values() {
    let mut p = Parser::new();
    for value in [0u32, 643, 32768, 64887, 0x3FFFF] {
        let bytes = encode(value, true);
        assert_eq!(p.push(bytes[0]), None);
        assert_eq!(p.push(bytes[1]), None);
        assert_eq!(p.push(bytes[2]), Some(RawValue { value, first: true }));
    }
}

#[test]
fn distinguishes_first_from_subsequent_values() {
    let mut p = Parser::new();
    let mut out = Vec::new();
    for byte in encode(100, true).into_iter().chain(encode(200, false)) {
        if let Some(v) = p.push(byte) {
            out.push(v);
        }
    }
    assert_eq!(
        out,
        vec![
            RawValue {
                value: 100,
                first: true
            },
            RawValue {
                value: 200,
                first: false
            }
        ]
    );
}

#[test]
fn resynchronises_after_dropped_byte() {
    let mut p = Parser::new();
    let good = encode(12345, true);
    p.push(good[1]);
    p.push(good[2]);
    assert_eq!(p.push_event(good[0]), ParseEvent::Pending);
    assert_eq!(p.push(good[1]), None);
    assert_eq!(
        p.push(good[2]),
        Some(RawValue {
            value: 12345,
            first: true
        })
    );
}

#[test]
fn reports_out_of_sequence_bytes_while_recovering() {
    let mut p = Parser::new();
    assert_eq!(p.push_event(0b0100_0001), ParseEvent::Resynchronised);
    assert_eq!(p.push_event(0b1000_0010), ParseEvent::Resynchronised);

    let good = encode(1234, true);
    assert_eq!(p.push_event(good[0]), ParseEvent::Pending);
    assert_eq!(p.push_event(good[1]), ParseEvent::Pending);
    assert_eq!(
        p.push_event(good[2]),
        ParseEvent::Value(RawValue {
            value: 1234,
            first: true
        })
    );
}

#[test]
fn l_byte_mid_value_restarts_parsing() {
    let mut p = Parser::new();
    let good = encode(999, true);
    p.push(good[0]);
    assert_eq!(p.push_event(good[0]), ParseEvent::Resynchronised);
    assert_eq!(p.push(good[1]), None);
    assert_eq!(
        p.push(good[2]),
        Some(RawValue {
            value: 999,
            first: true
        })
    );
}

#[test]
fn reserve_bands_and_errors_are_classified() {
    assert_eq!(classify_distance(0), DistanceClass::BelowRange);
    assert_eq!(classify_distance(642), DistanceClass::BelowRange);
    assert_eq!(classify_distance(643), DistanceClass::InRange(643));
    assert_eq!(classify_distance(64887), DistanceClass::InRange(64887));
    assert_eq!(classify_distance(64888), DistanceClass::AboveRange);
    assert_eq!(classify_distance(65520), DistanceClass::AboveRange);
    assert_eq!(classify_distance(65535), DistanceClass::Error(65535));
    assert_eq!(classify_distance(0x1_0000 + 700), DistanceClass::InRange(700));
}

#[test]
fn command_reply_waits_for_prompt_and_reports_errors() {
    let mut ok = CommandReplyParser::new();
    let mut result = None;
    for byte in b"MEASRATE 8 ok\r\n->" {
        result = ok.push(*byte).or(result);
    }
    assert_eq!(result, Some(CommandReply::Accepted));

    let mut error = CommandReplyParser::new();
    let mut result = None;
    for byte in b"E202 Access denied\r\n->" {
        result = error.push(*byte).or(result);
    }
    assert_eq!(result, Some(CommandReply::Error(202)));
}

#[test]
fn command_reply_ignores_interleaved_binary_measurements() {
    let mut reply = CommandReplyParser::new();
    let mut result = None;
    for byte in encode(12345, true)
        .into_iter()
        .chain(*b"OUTPUT NONE\r\n")
        .chain(encode(23456, true))
        .chain(*b"->")
    {
        result = reply.push(byte).or(result);
    }
    assert_eq!(result, Some(CommandReply::Accepted));
}

#[test]
fn measurement_parser_ignores_ascii_replies_and_prompts() {
    let mut parser = Parser::new();
    let mut values = Vec::new();
    for byte in b"MEASRATE 8 ok\r\n->"
        .iter()
        .copied()
        .chain(encode(32768, true))
    {
        if let Some(value) = parser.push(byte) {
            values.push(value);
        }
    }
    assert_eq!(
        values,
        vec![RawValue {
            value: 32768,
            first: true
        }]
    );
}

#[test]
fn command_reply_keeps_the_last_error_for_later_prompts() {
    let mut reply = CommandReplyParser::default();
    let mut replies = Vec::new();
    for byte in b"E012 bad\r\n->ok\r\n->" {
        if let Some(r) = reply.push(*byte) {
            replies.push(r);
        }
    }
    assert_eq!(replies, vec![CommandReply::Error(12), CommandReply::Error(12)]);
}

// ---- SSI words ----

fn gray(binary: u32) -> u32 {
    binary ^ (binary >> 1)
}

#[test]
fn known_gray_vectors_decode_at_12_and_13_bits() {
    for bits in [12, 13] {
        let format = SsiFormat { bits, gray: true };
        for binary in [1, 2, 3, 7, 42, 1234, (1 << bits) - 2] {
            assert_eq!(format.decode(gray(binary)), Ok(binary), "{bits} bits");
        }
    }
}

#[test]
fn binary_words_pass_through() {
    let format = SsiFormat {
        bits: 13,
        gray: false,
    };
    assert_eq!(format.decode(0x1234), Ok(0x1234));
}

#[test]
fn binary_endpoints_are_valid_positions() {
    let format = SsiFormat {
        bits: 12,
        gray: false,
    };
    assert_eq!(format.decode(0), Ok(0));
    assert_eq!(format.decode(0x0fff), Ok(0x0fff));
    assert_eq!(format.decode(0x1000), Err(SsiError::InvalidWord));
}

#[test]
fn interleaved_pair_round_trips_all_12_bit_positions() {
    for first in 0..4096u32 {
        let second = 4095 - first;
        let mut raw = 0;
        for bit in (0..12).rev() {
            raw = (raw << 2) | (((second >> bit) & 1) << 1) | ((first >> bit) & 1);
        }
        assert_eq!(deinterleave_pair(raw, 12), Ok([first, second]));
    }
}

#[test]
fn interleaved_pair_rejects_invalid_shapes() {
    assert_eq!(deinterleave_pair(0, 0), Err(SsiError::InvalidFormat));
    assert_eq!(deinterleave_pair(0, 17), Err(SsiError::InvalidFormat));
    assert_eq!(deinterleave_pair(1 << 24, 12), Err(SsiError::InvalidWord));
}

#[test]
fn invalid_bit_counts_are_rejected() {
    assert_eq!(
        SsiFormat {
            bits: 0,
            gray: false
        }
        .decode(1),
        Err(SsiError::InvalidFormat)
    );
}

#[test]
fn full_width_words_decode() {
    let format = SsiFormat {
        bits: 32,
        gray: true,
    };
    assert_eq!(format.decode(gray(0xDEAD_BEEF)), Ok(0xDEAD_BEEF));
    assert_eq!(
        SsiFormat {
            bits: 33,
            gray: false
        }
        .decode(0),
        Err(SsiError::InvalidFormat)
    );
    assert_eq!(deinterleave_pair(u32::MAX, 16), Ok([0xFFFF, 0xFFFF]));
}

#[test]
fn command_reply_reports_the_last_error_seen() {
    let mut parser = CommandReplyParser::new();
    let mut last = None;
    for &byte in b"E120\r\nE305\r\n->" {
        last = parser.push(byte);
    }
    assert_eq!(last, Some(CommandReply::Error(305)));
    assert_eq!(parser.push(b'-'), None);
    assert_eq!(parser.push(b'>'), Some(CommandReply::Error(305)));
}
