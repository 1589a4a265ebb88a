use flate2::{Compress, Compression, Decompress, FlushCompress, FlushDecompress, Status};
use json_stream::{ContentEncoding, InflateStep, JsonStream, JsonStreamError, Output, PartialJson};
use serde_json::Value;

fn val(s: &str) -> Value {
    serde_json::from_str(s).unwrap()
}

fn vals(items: &[&str]) -> Vec<Value> {
    items.iter().map(|s| val(s)).collect()
}

/// Polls until exhaustion, playing the transport: the response, then the
/// chunks, then the end of the body. Checks that exhaustion is stable.
fn drive_plain(
    level: u32,
    status: u16,
    enc: ContentEncoding,
    content_length: usize,
    chunks: &[Vec<u8>],
) -> (Vec<Value>, Option<JsonStreamError>) {
    let mut s = JsonStream::new(level, 16);
    let mut items = Vec::new();
    let mut err = None;
    let mut next = 0;
    loop {
        match s.poll_output() {
            Output::Item(v) => {
                assert!(err.is_none());
                items.push(v);
            }
            Output::Error(e) => {
                assert!(err.is_none());
                err = Some(e);
            }
            Output::Exhausted => break,
            Output::AwaitResponse => {
                s.on_response(status, enc, content_length);
            }
            Output::AwaitChunk => {
                if next < chunks.len() {
                    s.on_chunk(&chunks[next]);
                    next += 1;
                } else {
                    s.on_body_end();
                }
            }
        }
    }
    for _ in 0..3 {
        assert!(matches!(s.poll_output(), Output::Exhausted));
        assert!(s.is_terminated());
    }
    (items, err)
}

fn inflate_status(r: Result<Status, flate2::DecompressError>) -> i32 {
    match r {
        Ok(Status::Ok) => 0,
        Ok(Status::StreamEnd) => 1,
        Ok(Status::BufError) => -5,
        Err(_) => -3,
    }
}

/// As `drive_plain`, for a gzip-labelled 200 response whose chunks go through
/// an inflate engine with an output window of `window` bytes.
fn drive_compressed(level: u32, chunks: &[Vec<u8>], window: usize) -> (Vec<Value>, Option<JsonStreamError>) {
    let mut s = JsonStream::new(level, 16);
    let mut engine: Option<Decompress> = None;
    let mut out = vec![0u8; window];
    let mut items = Vec::new();
    let mut err = None;
    let mut next = 0;
    loop {
        match s.poll_output() {
            Output::Item(v) => items.push(v),
            Output::Error(e) => {
                assert!(err.is_none());
                err = Some(e);
            }
            Output::Exhausted => break,
            Output::AwaitResponse => {
                if s.on_response(200, ContentEncoding::Gzip, 0) {
                    engine = Some(Decompress::new(true));
                }
            }
            Output::AwaitChunk => {
                if next < chunks.len() {
                    let chunk = &chunks[next];
                    next += 1;
                    let d = engine.as_mut().unwrap();
                    loop {
                        let start = s.inflate_input_start();
                        let (in0, out0) = (d.total_in(), d.total_out());
                        let st = inflate_status(d.decompress(&chunk[start..], &mut out, FlushDecompress::None));
                        let consumed = (d.total_in() - in0) as usize;
                        let produced = (d.total_out() - out0) as usize;
                        match s.on_inflate_step(chunk.len(), st, consumed, &out[..produced], window) {
                            InflateStep::More => {}
                            _ => break,
                        }
                    }
                } else {
                    s.on_body_end();
                }
            }
        }
    }
    for _ in 0..3 {
        assert!(matches!(s.poll_output(), Output::Exhausted));
    }
    (items, err)
}

fn zlib(bytes: &[u8]) -> Vec<u8> {
    let mut c = Compress::new(Compression::default(), true);
    let mut out = Vec::with_capacity(bytes.len() * 2 + 64);
    let st = c.compress_vec(bytes, &mut out, FlushCompress::Finish).unwrap();
    assert_eq!(st, Status::StreamEnd);
    out
}

fn split_every(bytes: &[u8], n: usize) -> Vec<Vec<u8>> {
    bytes.chunks(n).map(|c| c.to_vec()).collect()
}

fn drain_slices(p: &mut PartialJson) -> Vec<Vec<u8>> {
    let mut r = Vec::new();
    while let Some(e) = p.next_slice() {
        r.push(e);
    }
    r
}

#[test]
fn two_chunks_at_level_one() {
    let mut p = PartialJson::new(8, 1);
    p.push(br#"[{"a":1},"#);
    assert_eq!(p.next().unwrap(), Some(val(r#"{"a":1}"#)));
    assert_eq!(p.next().unwrap(), None);
    p.push(br#"{"a":2}]"#);
    assert_eq!(p.next().unwrap(), Some(val(r#"{"a":2}"#)));
    assert_eq!(p.next().unwrap(), None);
}

#[test]
fn stream_two_chunks_then_exhaustion() {
    let chunks = vec![br#"[{"a":1},"#.to_vec(), br#"{"a":2}]"#.to_vec()];
    let (items, err) = drive_plain(1, 200, ContentEncoding::Identity, 0, &chunks);
    assert!(err.is_none());
    assert_eq!(items, vals(&[r#"{"a":1}"#, r#"{"a":2}"#]));
}

#[test]
fn no_content_empty_body() {
    let mut s = JsonStream::new(1, 16);
    assert!(matches!(s.poll_output(), Output::AwaitResponse));
    assert!(!s.on_response(204, ContentEncoding::Identity, 0));
    assert!(s.is_terminated());
    for _ in 0..3 {
        assert!(matches!(s.poll_output(), Output::Exhausted));
    }
}

#[test]
fn no_content_ignores_headers_and_body() {
    let chunks = vec![b"[1,2]".to_vec()];
    let (items, err) = drive_plain(1, 204, ContentEncoding::Gzip, 5, &chunks);
    assert!(items.is_empty());
    assert!(err.is_none());
}

#[test]
fn api_error_in_three_chunks() {
    let chunks = vec![b"bo".to_vec(), b"o".to_vec(), b"m".to_vec()];
    let (items, err) = drive_plain(1, 500, ContentEncoding::Identity, 4, &chunks);
    assert!(items.is_empty());
    match err {
        Some(JsonStreamError::ApiError(500, t)) => assert_eq!(t, "boom"),
        other => panic!("unexpected {:?}", other),
    }
}

#[test]
fn api_error_text_is_verbatim_for_every_split() {
    let body = "{\"error\": \"not found\", \"détail\": [1, 2]}".as_bytes();
    for n in 1..=body.len() {
        let (items, err) = drive_plain(1, 404, ContentEncoding::Identity, body.len(), &split_every(body, n));
        assert!(items.is_empty());
        match err {
            Some(JsonStreamError::ApiError(404, t)) => assert_eq!(t.as_bytes(), body),
            other => panic!("unexpected {:?}", other),
        }
    }
}

#[test]
fn api_error_with_invalid_text_is_malformed() {
    let chunks = vec![vec![0x66, 0xff], vec![0xfe]];
    let (_, err) = drive_plain(1, 502, ContentEncoding::Identity, 100000, &chunks);
    assert!(matches!(err, Some(JsonStreamError::MalformedJson(_))));
}

#[test]
fn api_error_with_empty_body() {
    let (_, err) = drive_plain(1, 503, ContentEncoding::Identity, 0, &[]);
    match err {
        Some(JsonStreamError::ApiError(503, t)) => assert_eq!(t, ""),
        other => panic!("unexpected {:?}", other),
    }
}

#[test]
fn decode_failure_ends_the_stream() {
    let chunks = vec![br#"[{"a":1},{bad},{"a":2}]"#.to_vec()];
    let (items, err) = drive_plain(1, 200, ContentEncoding::Identity, 0, &chunks);
    assert_eq!(items, vals(&[r#"{"a":1}"#]));
    assert!(matches!(err, Some(JsonStreamError::JsonError(_))));
}

#[test]
fn transport_error_before_response() {
    let mut s = JsonStream::new(1, 16);
    assert!(matches!(s.poll_output(), Output::AwaitResponse));
    s.on_transport_error(JsonStreamError::IOError(std::io::Error::new(
        std::io::ErrorKind::ConnectionReset,
        "reset",
    )));
    assert!(matches!(s.poll_output(), Output::Error(JsonStreamError::IOError(_))));
    for _ in 0..3 {
        assert!(matches!(s.poll_output(), Output::Exhausted));
    }
}

#[test]
fn transport_error_mid_body_keeps_earlier_elements() {
    let mut s = JsonStream::new(1, 16);
    s.poll_output();
    s.on_response(200, ContentEncoding::Identity, 0);
    s.on_chunk(b"[1,2,");
    assert!(matches!(s.poll_output(), Output::Item(v) if v == val("1")));
    assert!(matches!(s.poll_output(), Output::Item(v) if v == val("2")));
    assert!(matches!(s.poll_output(), Output::AwaitChunk));
    s.on_transport_error(JsonStreamError::MalformedJson("cut".to_string()));
    assert!(matches!(s.poll_output(), Output::Error(JsonStreamError::MalformedJson(_))));
    s.on_chunk(b"3]");
    s.on_transport_error(JsonStreamError::MalformedJson("again".to_string()));
    for _ in 0..3 {
        assert!(matches!(s.poll_output(), Output::Exhausted));
    }
}

#[test]
fn clean_end_is_stable() {
    let (items, err) = drive_plain(1, 200, ContentEncoding::Identity, 0, &[b"[true, null]".to_vec()]);
    assert!(err.is_none());
    assert_eq!(items, vals(&["true", "null"]));
}

const SAMPLE: &str = r#"[{"name":"a]b","tags":["x,y","z"]}, {"q":"\"]}"}, 3, "s\\", [1,[2]], {}, -1.5e3]"#;

#[test]
fn split_invariance_every_chunk_size() {
    let whole = drive_plain(1, 200, ContentEncoding::Identity, 0, &[SAMPLE.as_bytes().to_vec()]);
    assert_eq!(whole.0.len(), 7);
    for n in 1..=SAMPLE.len() {
        let split = drive_plain(1, 200, ContentEncoding::Identity, 0, &split_every(SAMPLE.as_bytes(), n));
        assert!(split.1.is_none());
        assert_eq!(split.0, whole.0);
    }
}

#[test]
fn slices_are_exact_bytes() {
    let mut p = PartialJson::new(0, 1);
    for b in SAMPLE.as_bytes() {
        p.push(&[*b]);
    }
    let got = drain_slices(&mut p);
    let want: Vec<Vec<u8>> = [
        r#"{"name":"a]b","tags":["x,y","z"]}"#,
        r#" {"q":"\"]}"}"#,
        " 3",
        r#" "s\\""#,
        " [1,[2]]",
        " {}",
        " -1.5e3",
    ]
    .iter()
    .map(|s| s.as_bytes().to_vec())
    .collect();
    assert_eq!(got, want);
}

#[test]
fn round_trip_plain_and_compressed() {
    let values: Vec<Value> = (0..50)
        .map(|i| val(&format!(r#"{{"id":{},"name":"item {}","list":[{},"]"]}}"#, i, i, i)))
        .collect();
    let bytes = serde_json::to_vec(&Value::Array(values.clone())).unwrap();
    let (plain, err) = drive_plain(1, 200, ContentEncoding::Identity, 0, &split_every(&bytes, 7));
    assert!(err.is_none());
    assert_eq!(plain, values);
    let packed = zlib(&bytes);
    let (inflated, err) = drive_compressed(1, &[packed], 64);
    assert!(err.is_none());
    assert_eq!(inflated, values);
}

#[test]
fn compressed_small_chunks_match_one_chunk() {
    let body: String = format!(
        "[{}]",
        (0..200).map(|i| format!(r#"{{"n":{},"s":"{}"}}"#, i, "ab".repeat(i % 7))).collect::<Vec<_>>().join(",")
    );
    let packed = zlib(body.as_bytes());
    let (one, err) = drive_compressed(1, &[packed.clone()], 4096);
    assert!(err.is_none());
    assert_eq!(one.len(), 200);
    for (n, window) in [(1usize, 16usize), (3, 1), (17, 33), (100, 7)] {
        let (many, err) = drive_compressed(1, &split_every(&packed, n), window);
        assert!(err.is_none());
        assert_eq!(many, one);
    }
}

#[test]
fn corrupt_compressed_body_is_an_encoding_error() {
    let (items, err) = drive_compressed(1, &[b"this is not deflate data".to_vec()], 32);
    assert!(items.is_empty());
    assert!(matches!(err, Some(JsonStreamError::EncodingError(_))));
}

#[test]
fn engine_failure_is_an_encoding_error() {
    let mut s = JsonStream::new(1, 16);
    s.poll_output();
    assert!(s.on_response(200, ContentEncoding::Gzip, 0));
    assert!(s.is_compressed());
    s.on_engine_failure();
    assert!(matches!(s.poll_output(), Output::Error(JsonStreamError::EncodingError(_))));
    assert!(matches!(s.poll_output(), Output::Exhausted));
}

#[test]
fn nested_level_two() {
    let chunks = vec![br#"{"data":[1,{"a":[2]}],"more":["x"]}"#.to_vec()];
    let (items, err) = drive_plain(2, 200, ContentEncoding::Identity, 0, &chunks);
    assert!(err.is_none());
    assert_eq!(items, vals(&["1", r#"{"a":[2]}"#, r#""x""#]));
    let (items, _) = drive_plain(2, 200, ContentEncoding::Identity, 0, &[b"[[1,2],[3]]".to_vec()]);
    assert_eq!(items, vals(&["1", "2", "3"]));
}

#[test]
fn level_zero_takes_top_level_values() {
    let (items, _) = drive_plain(0, 200, ContentEncoding::Identity, 0, &[b"1, [2], {\"a\":3},".to_vec()]);
    assert_eq!(items, vals(&["1", "[2]", r#"{"a":3}"#]));
}

#[test]
fn blank_elements_are_skipped() {
    let (items, err) = drive_plain(1, 200, ContentEncoding::Identity, 0, &[b"[ ]".to_vec()]);
    assert!(items.is_empty());
    assert!(err.is_none());
    let (items, err) = drive_plain(1, 200, ContentEncoding::Identity, 0, &[b"[1,\n 2 , ]".to_vec()]);
    assert!(err.is_none());
    assert_eq!(items, vals(&["1", "2"]));
}

#[test]
fn pending_element_leaves_buffer_alone() {
    let mut p = PartialJson::new(4, 1);
    p.push(b"[{\"a\": [1, 2");
    assert!(p.next_slice().is_none());
    assert!(p.next_slice().is_none());
    p.push(b"]}]");
    assert_eq!(p.next_slice(), Some(b"{\"a\": [1, 2]}".to_vec()));
}
