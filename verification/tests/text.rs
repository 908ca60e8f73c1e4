use bytes::BytesMut;

use pg_kinetic_proxy::clock::Duration;
use pg_kinetic_proxy::order::{sorted_texts, text_less};
use pg_kinetic_proxy::text::{
    byte_length, contains, cut_to_bytes, decimal_text, eq_ignore_ascii_case, i64_text, lines,
    parse_unsigned, split, split_once, strip_prefix, trim, trim_matches, white_space, words,
    NumberError,
};
use pg_kinetic_proxy::wire::{
    complete_frame_len, frontend_cycle_len, parse_backend_frame, parse_frontend_frame,
    parse_startup_packet, tagged_message, ReadyStatus, StartupError, StartupPacket,
};

#[test]
fn white_space_is_that_of_char() {
    for code in 0u32..=0x10_ffff {
        if let Some(c) = char::from_u32(code) {
            assert_eq!(white_space(c), c.is_whitespace(), "{:x}", code);
        }
    }
}

#[test]
fn texts_are_ordered_as_strings_are() {
    let all = ["", "a", "ab", "b", "B", "é", "z", "\u{ffff}", "\u{10000}", "a\0"];
    for a in all {
        for b in all {
            assert_eq!(text_less(a, b), a < b, "{:?} {:?}", a, b);
        }
    }
    let given: Vec<String> = all.iter().map(|t| t.to_string()).collect();
    let mut expected = given.clone();
    expected.sort();
    assert_eq!(sorted_texts(&given), expected);
}

#[test]
fn texts_are_taken_apart_as_strings_are() {
    for text in ["", " a  b\tc\n", "a\r\nb\n\nc", "\n", "a\r", "\u{3000}x\u{a0}", "a,b,,c,"] {
        let owned = |parts: Vec<&str>| parts.iter().map(|p| p.to_string()).collect::<Vec<_>>();
        assert_eq!(words(text), owned(text.split_whitespace().collect()), "{:?}", text);
        assert_eq!(lines(text), owned(text.lines().collect()), "{:?}", text);
        assert_eq!(split(text, ','), owned(text.split(',').collect()), "{:?}", text);
        assert_eq!(trim(text), text.trim(), "{:?}", text);
        assert_eq!(byte_length(text), text.len());
        assert_eq!(
            split_once(text, ','),
            text.split_once(',').map(|(a, b)| (a.to_string(), b.to_string()))
        );
    }
    assert_eq!(trim_matches("\"\"a\"b\"", '"'), "a\"b");
    assert_eq!(strip_prefix("md5abc", "md5"), Some("abc".to_string()));
    assert_eq!(strip_prefix("abc", "md5"), None);
    assert!(eq_ignore_ascii_case("Show", "sHOW"));
    assert!(!eq_ignore_ascii_case("É", "é"));
    assert!(contains("abcd", "bc"));
    assert!(!contains("abcd", "cb"));
    assert!(contains("", ""));
}

#[test]
fn texts_are_cut_between_characters() {
    assert_eq!(cut_to_bytes("héllo", 2), "h");
    assert_eq!(cut_to_bytes("héllo", 3), "hé");
    assert_eq!(cut_to_bytes("héllo", 100), "héllo");
}

#[test]
fn numbers_are_written_and_read() {
    assert_eq!(decimal_text(0), "0");
    assert_eq!(decimal_text(u128::MAX), u128::MAX.to_string());
    assert_eq!(i64_text(i64::MIN), i64::MIN.to_string());
    assert_eq!(parse_unsigned("+12", 12), Ok(12));
    assert_eq!(parse_unsigned("13", 12), Err(NumberError::Overflow));
    assert_eq!(parse_unsigned("", 12), Err(NumberError::Empty));
    assert_eq!(parse_unsigned("1a", 12), Err(NumberError::InvalidDigit));
    assert_eq!(parse_unsigned("+", 12), Err(NumberError::InvalidDigit));
    assert_eq!(parse_unsigned("99999999999999999999", u64::MAX), Err(NumberError::Overflow));
}

#[test]
fn frames_are_read_where_they_are_whole() {
    let message = tagged_message(b'Q', b"select 1\0");
    assert_eq!(&message[..], b"Q\0\0\0\x0dselect 1\0");
    assert_eq!(complete_frame_len(&message), Ok(Some(14)));
    assert_eq!(complete_frame_len(&message[..13]), Ok(None));
    assert_eq!(complete_frame_len(b"Q\0\0\0\x03").unwrap_err().length, 3);
    let mut buffer = BytesMut::from(&message[..]);
    buffer.extend_from_slice(b"rest");
    let frame = parse_frontend_frame(&mut buffer).expect("valid").expect("whole");
    assert_eq!(frame.tag, b'Q');
    assert_eq!(&frame.payload[..], b"select 1\0");
    assert_eq!(&buffer[..], b"rest");
    let mut buffer = BytesMut::from(&tagged_message(b'Z', b"E")[..]);
    let frame = parse_backend_frame(&mut buffer).expect("valid").expect("whole");
    assert_eq!(frame.ready_status(), Some(ReadyStatus::FailedTransaction));
}

#[test]
fn cycles_end_with_what_asks_for_an_answer() {
    let mut bytes = tagged_message(b'P', b"p").to_vec();
    assert_eq!(frontend_cycle_len(&bytes, false), Ok(None));
    bytes.extend_from_slice(&tagged_message(b'H', b""));
    let flushed = bytes.len();
    bytes.extend_from_slice(&tagged_message(b'S', b""));
    assert_eq!(frontend_cycle_len(&bytes, true), Ok(Some(flushed)));
    assert_eq!(frontend_cycle_len(&bytes, false), Ok(Some(bytes.len())));
}

#[test]
fn startup_packets_are_told_apart() {
    let packet = |code: i32, rest: &[u8]| {
        let mut bytes = ((rest.len() + 8) as i32).to_be_bytes().to_vec();
        bytes.extend_from_slice(&code.to_be_bytes());
        bytes.extend_from_slice(rest);
        bytes
    };
    match parse_startup_packet(&packet(196_608, b"user\0alice\0\0")) {
        Ok(StartupPacket::Startup { parameters }) => {
            assert_eq!(parameters, vec![("user".to_string(), "alice".to_string())]);
        }
        _ => panic!("no startup packet"),
    }
    assert!(matches!(
        parse_startup_packet(&packet(1, b"\0")),
        Err(StartupError::UnsupportedProtocol)
    ));
    assert!(matches!(parse_startup_packet(b"\0\0"), Err(StartupError::InvalidLength)));
    assert!(matches!(
        parse_startup_packet(&packet(196_608, b"user\0alice")),
        Err(StartupError::InvalidParameters)
    ));
    assert!(matches!(
        parse_startup_packet(&packet(196_608, b"user\0\xff\xfe\0\0")),
        Err(StartupError::InvalidParameters)
    ));
}

#[test]
fn durations_are_measured() {
    assert_eq!(Duration::from_millis(1_500).as_nanos(), 1_500_000_000);
    assert_eq!(Duration::from_nanos(1_999_999).as_millis(), 1);
    assert!(Duration::from_secs(2).longer_than(&Duration::from_millis(1_999)));
}
