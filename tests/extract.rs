use bytes::BytesMut;
use strchunk::{ExtractUtf8Error, StrChunk};

fn buffer(b: &[u8]) -> BytesMut {
    BytesMut::from(b)
}

fn expect_err(r: Result<Option<StrChunk>, ExtractUtf8Error>) -> ExtractUtf8Error {
    match r {
        Err(e) => e,
        Ok(_) => panic!("expected an extraction error"),
    }
}

#[test]
fn full_buffer_is_drained_into_one_chunk() {
    let mut src = buffer("héllo, wörld €𝄞".as_bytes());
    let chunk = StrChunk::extract_utf8(&mut src).unwrap().unwrap();
    assert_eq!(chunk.as_bytes(), "héllo, wörld €𝄞".as_bytes());
    assert_eq!(chunk.as_str(), "héllo, wörld €𝄞");
    assert!(src.is_empty());
}

#[test]
fn empty_buffer_gives_none() {
    let mut src = buffer(b"");
    assert!(StrChunk::extract_utf8(&mut src).unwrap().is_none());
    assert!(src.is_empty());
    assert!(StrChunk::extract_utf8(&mut src).unwrap().is_none());
    assert!(src.is_empty());
}

#[test]
fn drained_buffer_gives_none_on_the_next_call() {
    let mut src = buffer(b"abc");
    assert!(StrChunk::extract_utf8(&mut src).unwrap().is_some());
    assert!(StrChunk::extract_utf8(&mut src).unwrap().is_none());
    assert!(src.is_empty());
}

#[test]
fn split_keeps_every_byte_on_success() {
    let original: &[u8] = b"ab\xE2\x82";
    let mut src = buffer(original);
    let chunk = StrChunk::extract_utf8(&mut src).unwrap().unwrap();
    assert_eq!(chunk.as_bytes(), b"ab");
    assert_eq!(&src[..], b"\xE2\x82");
    let mut joined = chunk.as_bytes().to_vec();
    joined.extend_from_slice(&src);
    assert_eq!(joined, original);
}

#[test]
fn split_keeps_every_byte_on_error() {
    let original: &[u8] = b"x\xFFyz";
    let mut src = buffer(original);
    let err = expect_err(StrChunk::extract_utf8(&mut src));
    let chunk = err.into_extracted().unwrap();
    let mut joined = chunk.as_bytes().to_vec();
    joined.extend_from_slice(&src);
    assert_eq!(joined, original);
}

#[test]
fn lone_lead_byte_waits_for_more_input() {
    let mut src = buffer(b"\xE2");
    assert!(StrChunk::extract_utf8(&mut src).unwrap().is_none());
    assert_eq!(&src[..], b"\xE2");
}

#[test]
fn truncated_tail_after_text_is_not_an_error() {
    let mut src = buffer(b"caf\xC3");
    let chunk = StrChunk::extract_utf8(&mut src).unwrap().unwrap();
    assert_eq!(chunk.as_str(), "caf");
    assert_eq!(&src[..], b"\xC3");
    let mut src = buffer(b"z\xF0\x9F\x98");
    let chunk = StrChunk::extract_utf8(&mut src).unwrap().unwrap();
    assert_eq!(chunk.as_str(), "z");
    assert_eq!(&src[..], b"\xF0\x9F\x98");
}

#[test]
fn extraction_resumes_across_every_split_point() {
    let text = "a€b𝄞c é";
    let bytes = text.as_bytes();
    for at in 0..=bytes.len() {
        let mut src = BytesMut::new();
        let mut out = String::new();
        src.extend_from_slice(&bytes[..at]);
        if let Some(c) = StrChunk::extract_utf8(&mut src).unwrap() {
            out.push_str(c.as_str());
        }
        src.extend_from_slice(&bytes[at..]);
        if let Some(c) = StrChunk::extract_utf8(&mut src).unwrap() {
            out.push_str(c.as_str());
        }
        assert_eq!(out, text);
        assert!(src.is_empty());
    }
}

#[test]
fn bare_continuation_byte_is_reported() {
    let mut src = buffer(b"\x80");
    let err = expect_err(StrChunk::extract_utf8(&mut src));
    assert_eq!(err.error_len(), 1);
    assert!(err.into_extracted().is_none());
    assert_eq!(&src[..], b"\x80");
}

#[test]
fn text_then_continuation_byte_is_reported_with_prefix() {
    let mut src = buffer(b"abc\x80def");
    let err = expect_err(StrChunk::extract_utf8(&mut src));
    assert_eq!(err.error_len(), 1);
    let chunk = err.into_extracted().unwrap();
    assert_eq!(chunk.as_str(), "abc");
    assert_eq!(&src[..], b"\x80def");
}

#[test]
fn error_len_counts_the_malformed_run() {
    let mut src = buffer(b"\xE2\x82A");
    let err = expect_err(StrChunk::extract_utf8(&mut src));
    assert_eq!(err.error_len(), 2);
    assert_eq!(&src[..], b"\xE2\x82A");

    let mut src = buffer(b"\xF0\x9F\x98A");
    let err = expect_err(StrChunk::extract_utf8(&mut src));
    assert_eq!(err.error_len(), 3);

    let mut src = buffer(b"\xC0\x80");
    let err = expect_err(StrChunk::extract_utf8(&mut src));
    assert_eq!(err.error_len(), 1);

    let mut src = buffer(b"ok\xED\xA0\x80");
    let err = expect_err(StrChunk::extract_utf8(&mut src));
    assert_eq!(err.error_len(), 1);
    assert_eq!(err.into_extracted().unwrap().as_str(), "ok");
}

#[test]
fn skipping_the_reported_run_lets_extraction_continue() {
    let mut src = buffer(b"ab\xFFcd");
    let err = expect_err(StrChunk::extract_utf8(&mut src));
    let _ = src.split_to(err.error_len());
    let rest = StrChunk::extract_utf8(&mut src).unwrap().unwrap();
    assert_eq!(rest.as_str(), "cd");
}

#[test]
fn error_has_a_description() {
    let mut src = buffer(b"\xFF");
    let err = expect_err(StrChunk::extract_utf8(&mut src));
    assert_eq!(err.description(), "invalid UTF-8 sequence in input");
}

#[test]
fn continuation_byte_after_text_is_one_byte_run_even_with_more_input() {
    let mut src = buffer(b"ab\x80\x80\xE2\x82\xACcd");
    let err = expect_err(StrChunk::extract_utf8(&mut src));
    assert_eq!(err.error_len(), 1);
    assert_eq!(err.into_extracted().unwrap().as_str(), "ab");
    assert_eq!(&src[..], b"\x80\x80\xE2\x82\xACcd");
}
