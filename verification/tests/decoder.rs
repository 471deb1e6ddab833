use aid::error::ChatError;
use aid::openai::{classify_response, finalize_answer};
use aid::stream::StreamDecoder;

fn decode_chunks(chunks: &[Vec<u8>]) -> Result<String, ChatError> {
    let mut d = StreamDecoder::new();
    for c in chunks {
        d.push_chunk(c);
    }
    d.finish()
}

fn delta_record(text: &str) -> Vec<u8> {
    format!(
        "data: {{\"choices\":[{{\"index\":0,\"delta\":{{\"content\":\"{}\"}}}}]}}\n",
        text
    )
    .into_bytes()
}

#[test]
fn single_chunk_single_delta() {
    let mut stream = delta_record("hello");
    stream.extend_from_slice(b"data: [DONE]\n");
    let r = decode_chunks(&[stream]).unwrap();
    assert_eq!(r, "hello\n");
}

#[test]
fn delta_records_join_with_newlines() {
    let mut stream = Vec::new();
    stream.extend_from_slice(&delta_record("t_1"));
    stream.extend_from_slice(&delta_record("t_2"));
    stream.extend_from_slice(&delta_record("t_3"));
    stream.extend_from_slice(b"data: [DONE]\n");
    let r = decode_chunks(&[stream]).unwrap();
    assert_eq!(r, "t_1\nt_2\nt_3\n");
}

#[test]
fn chunk_splitting_is_immaterial() {
    let mut stream = Vec::new();
    stream.extend_from_slice(&delta_record("h\u{e9}llo"));
    stream.extend_from_slice(&delta_record("world"));
    stream.extend_from_slice(b"data: [DONE]\n");

    let whole = decode_chunks(&[stream.clone()]).unwrap();

    let per_byte: Vec<Vec<u8>> = stream.iter().map(|b| vec![*b]).collect();
    let byte_by_byte = decode_chunks(&per_byte).unwrap();

    let mid = stream.len() / 2;
    let halves = vec![stream[..mid].to_vec(), stream[mid..].to_vec()];
    let halved = decode_chunks(&halves).unwrap();

    assert_eq!(whole, "h\u{e9}llo\nworld\n");
    assert_eq!(byte_by_byte, whole);
    assert_eq!(halved, whole);
}

#[test]
fn chunk_split_inside_multibyte_character() {
    // "é" is 0xC3 0xA9 in UTF-8; cut the stream between those two bytes.
    let record = delta_record("h\u{e9}llo");
    let cut = record.iter().position(|b| *b == 0xC3).unwrap() + 1;
    let mut chunks = vec![record[..cut].to_vec(), record[cut..].to_vec()];
    chunks.push(b"data: [DONE]\n".to_vec());
    let r = decode_chunks(&chunks).unwrap();
    assert_eq!(r, "h\u{e9}llo\n");
}

#[test]
fn empty_records_are_skipped() {
    let mut stream = Vec::new();
    stream.extend_from_slice(b"\n\n");
    stream.extend_from_slice(&delta_record("a"));
    stream.extend_from_slice(b"\n");
    stream.extend_from_slice(b"data: [DONE]\n");
    let r = decode_chunks(&[stream]).unwrap();
    assert_eq!(r, "a\n");
}

#[test]
fn terminator_contributes_nothing() {
    let r = decode_chunks(&[b"data: [DONE]\n".to_vec()]).unwrap();
    assert_eq!(r, "");
}

#[test]
fn unmarked_records_contribute_nothing() {
    let mut stream = b"event: ping\n".to_vec();
    stream.extend_from_slice(&delta_record("x"));
    stream.extend_from_slice(b"data: [DONE]\n");
    let r = decode_chunks(&[stream]).unwrap();
    assert_eq!(r, "x\n");
}

#[test]
fn several_deltas_in_one_record() {
    let stream =
        b"data: {\"choices\":[{\"delta\":{\"content\":\"c1\"}},{\"delta\":{\"content\":\"c2\"}}]}\n"
            .to_vec();
    let r = decode_chunks(&[stream]).unwrap();
    assert_eq!(r, "c1\nc2\n");
}

#[test]
fn empty_delta_content_contributes_nothing() {
    let mut stream = b"data: {\"choices\":[{\"delta\":{\"content\":\"\"}}]}\n".to_vec();
    stream.extend_from_slice(&delta_record("a"));
    let r = decode_chunks(&[stream]).unwrap();
    assert_eq!(r, "a\n");
}

#[test]
fn payload_without_choices_contributes_nothing() {
    let stream = b"data: {\"id\":\"x\"}\n".to_vec();
    let r = decode_chunks(&[stream]).unwrap();
    assert_eq!(r, "");
}

#[test]
fn malformed_record_fails_with_parse() {
    let mut stream = Vec::new();
    stream.extend_from_slice(&delta_record("kept"));
    stream.extend_from_slice(b"data: not json at all\n");
    stream.extend_from_slice(&delta_record("after"));
    let r = decode_chunks(&[stream]);
    assert_eq!(r, Err(ChatError::Parse));
}

#[test]
fn invalid_utf8_in_payload_fails_with_parse() {
    let mut stream = b"data: {\"choices\":[{\"delta\":{\"content\":\"".to_vec();
    stream.push(0xFF);
    stream.extend_from_slice(b"\"}}]}\n");
    let r = decode_chunks(&[stream]);
    assert_eq!(r, Err(ChatError::Parse));
}

#[test]
fn unterminated_trailing_record_is_dropped() {
    let mut stream = Vec::new();
    stream.extend_from_slice(&delta_record("done"));
    stream.extend_from_slice(b"data: {\"choices\":[{\"delta\":{\"content\":\"half");
    let r = decode_chunks(&[stream]).unwrap();
    assert_eq!(r, "done\n");
}

#[test]
fn push_chunk_reports_emitted_text() {
    let mut d = StreamDecoder::new();
    let emitted = d.push_chunk(&delta_record("live"));
    assert_eq!(emitted, "live\n");
    let emitted = d.push_chunk(&b"data: [DONE]\n".to_vec());
    assert_eq!(emitted, "");
    assert_eq!(d.finish().unwrap(), "live\n");
}

#[test]
fn classify_success_status() {
    let r = classify_response(200, &Vec::new());
    assert!(r.is_ok());
}

#[test]
fn classify_error_status_with_embedded_message() {
    let body = b"{\"error\":{\"message\":\"boom\",\"type\":\"t\"}}".to_vec();
    let r = classify_response(500, &body);
    assert_eq!(r, Err(ChatError::RemoteAPI(String::from("boom"))));
}

#[test]
fn classify_error_status_without_message() {
    let r = classify_response(404, &b"plain text".to_vec());
    assert_eq!(r, Err(ChatError::RemoteAPI(String::from("remote api error"))));
}

#[test]
fn empty_answer_is_empty_result() {
    assert_eq!(finalize_answer(String::new()), Err(ChatError::EmptyResult));
    assert_eq!(finalize_answer(String::from("a\n")), Ok(String::from("a\n")));
}
