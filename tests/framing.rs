use netstring::{decode, encode, FrameError, NetstringReader, ReadNetstring, WriteNetstring};
use netstring::{Shutdown, ShutdownMode, DIGIT_LIMIT};

#[test]
fn basic_read() {
    let mut raw = NetstringReader::from_bytes("5:hello,".as_bytes());
    let x = raw.read_netstring().unwrap();
    assert_eq!("hello", x);
}

#[test]
fn basic_write() {
    let mut raw: Vec<u8> = vec![];
    let _ = raw.write_netstring("hello").unwrap();
    assert_eq!(raw, b"5:hello,");
}

#[test]
fn invalid_delimiter() {
    let mut raw = NetstringReader::from_bytes("5:hello?".as_bytes());
    assert_eq!(raw.read_netstring(), Err(FrameError::InvalidFrame));
}

#[test]
fn longer() {
    let mut raw = NetstringReader::from_bytes("10:hello,".as_bytes());
    assert_eq!(raw.read_netstring(), Err(FrameError::InvalidFrame));
}

#[test]
fn shorter() {
    let mut raw = NetstringReader::from_bytes("2:hello,".as_bytes());
    assert_eq!(raw.read_netstring(), Err(FrameError::InvalidFrame));
}

#[test]
fn multiple() {
    let mut raw = NetstringReader::from_bytes("5:hello,5:world,10:xxxxxxxxxx,".as_bytes());
    let x1 = raw.read_netstring().unwrap();
    let x2 = raw.read_netstring().unwrap();
    let x3 = raw.read_netstring().unwrap();
    assert_eq!(x1, "hello");
    assert_eq!(x2, "world");
    assert_eq!(x3, "xxxxxxxxxx");
    assert_eq!(raw.read_netstring(), Err(FrameError::ConnectionClosed));
}

#[test]
fn encode_counts_bytes_not_chars() {
    assert_eq!(encode("héllo"), "6:héllo,".as_bytes().to_vec());
    assert_eq!(encode(""), b"0:,".to_vec());
}

#[test]
fn encode_long_length_prefix() {
    let text = "x".repeat(1234);
    let frame = encode(&text);
    assert!(frame.starts_with(b"1234:"));
    assert_eq!(frame.len(), 1234 + 6);
    assert_eq!(frame[frame.len() - 1], b',');
}

#[test]
fn round_trip_texts() {
    for text in ["", "hello", "a,b:c", "héllo wörld ✓", "10:xxxxxxxxxx,"] {
        let frame = encode(text);
        let (back, used) = decode(&frame, true).unwrap();
        assert_eq!(back, text);
        assert_eq!(used, frame.len());
    }
}

#[test]
fn decode_reports_bytes_used() {
    let (text, used) = decode(b"3:abc,rest", true).unwrap();
    assert_eq!(text, "abc");
    assert_eq!(used, 6);
}

#[test]
fn empty_stream_is_closed() {
    assert_eq!(decode(b"", true), Err(FrameError::ConnectionClosed));
    assert_eq!(decode(b"12", true), Err(FrameError::ConnectionClosed));
}

#[test]
fn open_stream_waits_for_more() {
    assert_eq!(decode(b"", false), Err(FrameError::Incomplete));
    assert_eq!(decode(b"5:hel", false), Err(FrameError::Incomplete));
    assert_eq!(decode(b"5:hello", false), Err(FrameError::Incomplete));
    assert_eq!(decode(b"5:hello", true), Err(FrameError::InvalidFrame));
}

#[test]
fn malformed_length_prefixes() {
    assert_eq!(decode(b":hello,", true), Err(FrameError::InvalidFrame));
    assert_eq!(decode(b"5a:hello,", true), Err(FrameError::InvalidFrame));
    assert_eq!(decode(b"+5:hello,", true), Err(FrameError::InvalidFrame));
    assert_eq!(decode(b"99999999999999999999:x,", true), Err(FrameError::InvalidFrame));
}

#[test]
fn length_prefix_limit() {
    let long = vec![b'1'; DIGIT_LIMIT];
    assert_eq!(decode(&long, false), Err(FrameError::InvalidFrame));
    let short = vec![b'1'; DIGIT_LIMIT - 1];
    assert_eq!(decode(&short, false), Err(FrameError::Incomplete));
}

#[test]
fn payload_must_be_utf8() {
    assert_eq!(decode(b"2:\xff\xfe,", true), Err(FrameError::InvalidFrame));
}

#[test]
fn reader_fed_in_pieces() {
    let mut raw = NetstringReader::new();
    raw.feed(b"5:he");
    assert_eq!(raw.read_netstring(), Err(FrameError::Incomplete));
    raw.feed(b"llo,3:b");
    assert_eq!(raw.read_netstring(), Ok("hello".to_string()));
    assert_eq!(raw.read_netstring(), Err(FrameError::Incomplete));
    raw.feed(b"ye,");
    raw.finish();
    assert!(raw.is_ended());
    assert_eq!(raw.read_netstring(), Ok("bye".to_string()));
    assert_eq!(raw.read_netstring(), Err(FrameError::ConnectionClosed));
}

#[test]
fn in_memory_streams_shut_down_quietly() {
    let raw = NetstringReader::new();
    assert!(raw.shutdown(ShutdownMode::Both).is_ok());
    let out: Vec<u8> = Vec::new();
    assert!(out.shutdown(ShutdownMode::Write).is_ok());
}

#[test]
fn vec_flush_and_append() {
    let mut out: Vec<u8> = b"x".to_vec();
    out.write_netstring("ab").unwrap();
    WriteNetstring::flush(&mut out).unwrap();
    netstring::append_frame(&mut out, "c");
    assert_eq!(out, b"x2:ab,1:c,".to_vec());
}

#[test]
fn write_then_read_leaves_the_rest() {
    let mut w: Vec<u8> = vec![];
    w.write_netstring("héllo").unwrap();
    w.extend_from_slice(b"12");
    let mut src = NetstringReader::from_bytes(&w);
    assert_eq!(src.read_netstring(), Ok("héllo".to_string()));
    assert_eq!(src.read_netstring(), Err(FrameError::ConnectionClosed));
}

#[test]
fn pieces_decode_like_the_whole() {
    let whole = b"5:hello,3:abc,";
    for cut in 0..whole.len() {
        let mut raw = NetstringReader::new();
        raw.feed(&whole[..cut]);
        let first = raw.read_netstring();
        if first == Err(FrameError::Incomplete) {
            raw.feed(&whole[cut..]);
            assert_eq!(raw.read_netstring(), Ok("hello".to_string()));
        } else {
            assert_eq!(first, Ok("hello".to_string()));
            raw.feed(&whole[cut..]);
        }
        raw.finish();
        assert_eq!(raw.read_netstring(), Ok("abc".to_string()));
    }
}

#[test]
fn vec_writes_and_flushes_succeed() {
    let mut w: Vec<u8> = vec![];
    assert_eq!(w.write_netstring(""), Ok(()));
    assert_eq!(WriteNetstring::flush(&mut w), Ok(()));
    assert_eq!(w, b"0:,".to_vec());
}
