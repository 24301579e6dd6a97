use gamdam::blc::{without_carriage_return, BinaryLinesCodec, BinaryLinesCodecError};
use std::collections::VecDeque;

fn dq(b: &[u8]) -> VecDeque<u8> {
    b.iter().copied().collect()
}

fn bytes(buf: &VecDeque<u8>) -> Vec<u8> {
    buf.iter().copied().collect()
}

/// Decodes everything buffered, returning the frames and how many
/// over-long lines were reported.
fn drain(codec: &mut BinaryLinesCodec, buf: &mut VecDeque<u8>) -> (Vec<Vec<u8>>, usize) {
    let mut frames = Vec::new();
    loop {
        match codec.decode(buf) {
            Ok(Some(f)) => frames.push(f),
            Ok(None) => return (frames, 0),
            Err(BinaryLinesCodecError::MaxLineLengthExceeded) => return (frames, 1),
            Err(e) => panic!("unexpected error: {}", e.message()),
        }
    }
}

fn encode_all(frames: &[&[u8]]) -> Vec<u8> {
    let mut codec = BinaryLinesCodec::new();
    let mut buf = VecDeque::new();
    for f in frames {
        codec.encode(f, &mut buf).unwrap();
    }
    bytes(&buf)
}

#[test]
fn encode_appends_newline() {
    let mut codec = BinaryLinesCodec::new();
    let mut buf = dq(b"x");
    codec.encode(b"ab\xff", &mut buf).unwrap();
    assert_eq!(bytes(&buf), b"xab\xff\n");
}

#[test]
fn round_trip_in_one_piece() {
    let frames: Vec<&[u8]> = vec![b"alpha", b"", b"\xfe\x00binary", b"last"];
    let mut buf = dq(&encode_all(&frames));
    let mut codec = BinaryLinesCodec::new();
    let (got, errors) = drain(&mut codec, &mut buf);
    assert_eq!(errors, 0);
    assert_eq!(got, frames.iter().map(|f| f.to_vec()).collect::<Vec<_>>());
    assert!(buf.is_empty());
}

#[test]
fn round_trip_any_chunking() {
    let frames: Vec<&[u8]> = vec![b"one", b"two two", b"", b"three\x80"];
    let stream = encode_all(&frames);
    for size in 1..=stream.len() {
        let mut codec = BinaryLinesCodec::new_with_max_length(16);
        let mut buf = VecDeque::new();
        let mut got = Vec::new();
        for chunk in stream.chunks(size) {
            buf.extend(chunk.iter().copied());
            let (fs, errors) = drain(&mut codec, &mut buf);
            assert_eq!(errors, 0);
            got.extend(fs);
        }
        assert_eq!(got, frames.iter().map(|f| f.to_vec()).collect::<Vec<_>>(), "chunk size {size}");
        assert!(buf.is_empty());
    }
}

#[test]
fn carriage_return_is_stripped() {
    let mut codec = BinaryLinesCodec::new();
    let mut buf = dq(b"abc\r\nabc\nx\r\r\n");
    let (got, _) = drain(&mut codec, &mut buf);
    assert_eq!(got, vec![b"abc".to_vec(), b"abc".to_vec(), b"x\r".to_vec()]);
}

#[test]
fn over_long_line_is_reported_once_then_skipped() {
    let mut codec = BinaryLinesCodec::new_with_max_length(4);
    let mut buf = dq(b"toolong");
    assert!(matches!(codec.decode(&mut buf), Err(BinaryLinesCodecError::MaxLineLengthExceeded)));
    assert_eq!(bytes(&buf), b"toolong");
    // More of the same line: dropped, no second report.
    buf.extend(b"still".iter().copied());
    assert_eq!(codec.decode(&mut buf).unwrap(), None);
    assert!(buf.is_empty());
    // The next frame is the one after the first newline.
    buf.extend(b"more\nok\nfine\n".iter().copied());
    assert_eq!(codec.decode(&mut buf).unwrap(), Some(b"ok".to_vec()));
    assert_eq!(codec.decode(&mut buf).unwrap(), Some(b"fine".to_vec()));
    assert_eq!(codec.decode(&mut buf).unwrap(), None);
}

#[test]
fn line_of_exactly_max_length_is_accepted() {
    let mut codec = BinaryLinesCodec::new_with_max_length(3);
    let mut buf = dq(b"abc\nabcd\n");
    assert_eq!(codec.decode(&mut buf).unwrap(), Some(b"abc".to_vec()));
    assert!(codec.decode(&mut buf).is_err());
}

#[test]
fn pending_line_waits_for_newline() {
    let mut codec = BinaryLinesCodec::new();
    let mut buf = dq(b"par");
    assert_eq!(codec.decode(&mut buf).unwrap(), None);
    assert_eq!(bytes(&buf), b"par");
    buf.extend(b"tial\n".iter().copied());
    assert_eq!(codec.decode(&mut buf).unwrap(), Some(b"partial".to_vec()));
}

#[test]
fn eof_emits_last_line_without_newline() {
    let mut codec = BinaryLinesCodec::default();
    let mut buf = dq(b"a\nlast\r");
    assert_eq!(codec.decode_eof(&mut buf).unwrap(), Some(b"a".to_vec()));
    assert_eq!(codec.decode_eof(&mut buf).unwrap(), Some(b"last".to_vec()));
    assert_eq!(codec.decode_eof(&mut buf).unwrap(), None);
    let mut cr = dq(b"\r");
    assert_eq!(codec.decode_eof(&mut cr).unwrap(), None);
}

#[test]
fn strip_only_one_carriage_return() {
    assert_eq!(without_carriage_return(b"ab\r\r"), b"ab\r".to_vec());
    assert_eq!(without_carriage_return(b"ab"), b"ab".to_vec());
    assert_eq!(without_carriage_return(b""), Vec::<u8>::new());
}

#[test]
fn codec_error_messages() {
    assert_eq!(BinaryLinesCodecError::MaxLineLengthExceeded.message(), "max line length exceeded");
    let e: BinaryLinesCodecError = std::io::Error::new(std::io::ErrorKind::Other, "boom").into();
    assert_eq!(e.message(), "boom");
}

#[test]
fn decode_all_takes_every_complete_frame() {
    let mut codec = BinaryLinesCodec::new_with_max_length(8);
    let mut buf = dq(b"a\nbb\r\npartial");
    let (frames, overlong) = codec.decode_all(&mut buf);
    assert_eq!(frames, vec![b"a".to_vec(), b"bb".to_vec()]);
    assert!(!overlong);
    assert_eq!(bytes(&buf), b"partial");
    buf.extend(b"longer than eight\nnext\n".iter().copied());
    let (frames, overlong) = codec.decode_all(&mut buf);
    assert!(frames.is_empty());
    assert!(overlong);
    let (frames, overlong) = codec.decode_all(&mut buf);
    assert_eq!(frames, vec![b"next".to_vec()]);
    assert!(!overlong);
}

#[test]
fn decode_stream_any_chunking() {
    let frames: Vec<&[u8]> = vec![b"x", b"", b"yz\xff", b"w"];
    let stream = encode_all(&frames);
    for size in 1..=stream.len() {
        let chunks: Vec<Vec<u8>> = stream.chunks(size).map(|c| c.to_vec()).collect();
        let (got, overlong) = BinaryLinesCodec::decode_stream(4, &chunks);
        assert!(!overlong);
        assert_eq!(got, frames.iter().map(|f| f.to_vec()).collect::<Vec<_>>());
    }
    let chunks = vec![b"toolong\nok\n".to_vec()];
    let (got, overlong) = BinaryLinesCodec::decode_stream(4, &chunks);
    assert!(got.is_empty());
    assert!(overlong);
}
