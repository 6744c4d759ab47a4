use artificial::error::OpenAiError;
use artificial::sse::decode_frame;
use artificial::sse::find_frame_end;
use artificial::sse::FrameDecoder;
use artificial::sse::RawFrame;
use artificial::sse::StreamEnd;

fn run_chunks(chunks: &[&[u8]]) -> (Vec<String>, StreamEnd, bool, usize) {
    let mut decoder = FrameDecoder::new();
    let mut payloads: Vec<String> = Vec::new();
    let mut failed = false;
    for chunk in chunks {
        let batch = decoder.feed(chunk);
        payloads.extend(batch.payloads);
        if batch.error.is_some() {
            assert!(!failed);
            failed = true;
        }
    }
    (payloads, decoder.end(), failed, decoder.buffered())
}

#[test]
fn frame_split_at_any_offset_gives_one_payload_then_the_end() {
    let bytes: &[u8] = b"data: {\"a\":1}\n\ndata: [DONE]\n\n";
    for cut in 0..=bytes.len() {
        let (payloads, end, failed, buffered) = run_chunks(&[&bytes[..cut], &bytes[cut..]]);
        assert_eq!(payloads, vec!["{\"a\":1}".to_string()], "cut at {}", cut);
        assert_eq!(end, StreamEnd::Done);
        assert!(!failed);
        assert_eq!(buffered, 0);
    }
}

#[test]
fn chunking_does_not_change_the_payloads() {
    let bytes: &[u8] =
        b": keep-alive\n\ndata: one\n\ndata:   two  \n\nevent: ping\n\ndata: {\"k\":\"\\n\"}\n\ndata: tail";
    let expected = vec!["one".to_string(), "two".to_string(), "{\"k\":\"\\n\"}".to_string()];
    let (whole, end, failed, buffered) = run_chunks(&[bytes]);
    assert_eq!(whole, expected);
    assert_eq!(end, StreamEnd::Open);
    assert!(!failed);
    assert_eq!(buffered, "data: tail".len());

    let single: Vec<&[u8]> = bytes.chunks(1).collect();
    assert_eq!(run_chunks(&single), (expected.clone(), StreamEnd::Open, false, buffered));
    for size in 2..bytes.len() {
        let pieces: Vec<&[u8]> = bytes.chunks(size).collect();
        assert_eq!(run_chunks(&pieces), (expected.clone(), StreamEnd::Open, false, buffered));
    }
    for first in 0..bytes.len() {
        for second in first..bytes.len() {
            let pieces: [&[u8]; 4] = [&bytes[..first], &bytes[first..second], &[], &bytes[second..]];
            assert_eq!(run_chunks(&pieces).0, expected);
        }
    }
}

#[test]
fn nothing_is_decoded_after_done() {
    let mut decoder = FrameDecoder::new();
    let batch = decoder.feed(b"data: a\n\ndata: [DONE]\n\ndata: b\n\n");
    assert_eq!(batch.payloads, vec!["a".to_string()]);
    assert!(batch.error.is_none());
    assert!(decoder.is_finished());
    assert_eq!(decoder.end(), StreamEnd::Done);
    let later = decoder.feed(b"data: c\n\n");
    assert!(later.payloads.is_empty());
    assert!(later.error.is_none());
    assert_eq!(decoder.buffered(), 0);
}

#[test]
fn trailing_bytes_without_delimiter_are_kept_waiting() {
    let mut decoder = FrameDecoder::new();
    assert!(!decoder.is_finished());
    let batch = decoder.feed(b"data: partial\n");
    assert!(batch.payloads.is_empty());
    assert!(batch.error.is_none());
    assert_eq!(decoder.buffered(), 14);
    let batch = decoder.feed(b"\n");
    assert_eq!(batch.payloads, vec!["partial".to_string()]);
    assert_eq!(decoder.buffered(), 0);
    assert_eq!(decoder.end(), StreamEnd::Open);
}

#[test]
fn invalid_utf8_ends_the_stream_with_an_error() {
    let mut decoder = FrameDecoder::new();
    let batch = decoder.feed(b"data: ok\n\ndata: \xff\xfe\n\ndata: never\n\n");
    assert_eq!(batch.payloads, vec!["ok".to_string()]);
    match batch.error {
        Some(OpenAiError::Unknown(message)) => {
            assert!(message.starts_with("UTF8 error: "), "message: {}", message);
            assert!(message.len() > "UTF8 error: ".len());
        }
        other => panic!("unexpected error: {:?}", other),
    }
    assert_eq!(decoder.end(), StreamEnd::Failed);
    let later = decoder.feed(b"data: more\n\n");
    assert!(later.payloads.is_empty());
    assert!(later.error.is_none());
    assert_eq!(decoder.end(), StreamEnd::Failed);
}

#[test]
fn invalid_utf8_fails_even_without_the_data_prefix() {
    let mut decoder = FrameDecoder::new();
    let batch = decoder.feed(b"\xc3\n\n");
    assert!(batch.payloads.is_empty());
    assert!(matches!(batch.error, Some(OpenAiError::Unknown(_))));
}

#[test]
fn frames_are_classified() {
    assert!(matches!(decode_frame(b"data: [DONE]\n\n"), Ok(RawFrame::Done)));
    assert!(matches!(decode_frame(b"data:   [DONE] \t\n\n"), Ok(RawFrame::Done)));
    assert!(matches!(decode_frame(b": comment\n\n"), Ok(RawFrame::Skipped)));
    assert!(matches!(decode_frame(b"data:no space\n\n"), Ok(RawFrame::Skipped)));
    assert!(matches!(decode_frame(b" data: x\n\n"), Ok(RawFrame::Skipped)));
    assert!(matches!(decode_frame(b"\n\n"), Ok(RawFrame::Skipped)));
    assert!(matches!(decode_frame(b"Data: x\n\n"), Ok(RawFrame::Skipped)));
    match decode_frame(b"data: \n\n") {
        Ok(RawFrame::Payload(payload)) => assert_eq!(payload, ""),
        other => panic!("unexpected frame: {:?}", other),
    }
    match decode_frame("data: \u{a0}\u{2003}h\u{e9}llo w\u{3000}\u{85}\n\n".as_bytes()) {
        Ok(RawFrame::Payload(payload)) => assert_eq!(payload, "h\u{e9}llo w"),
        other => panic!("unexpected frame: {:?}", other),
    }
    match decode_frame(b"data: [DONE] x\n\n") {
        Ok(RawFrame::Payload(payload)) => assert_eq!(payload, "[DONE] x"),
        other => panic!("unexpected frame: {:?}", other),
    }
    match decode_frame(b"data: data: x\r\n\n") {
        Ok(RawFrame::Payload(payload)) => assert_eq!(payload, "data: x"),
        other => panic!("unexpected frame: {:?}", other),
    }
    assert!(matches!(decode_frame(b"data: \xe2\x82\n\n"), Err(OpenAiError::Unknown(_))));
}

#[test]
fn the_first_delimiter_is_found() {
    assert_eq!(find_frame_end(b""), None);
    assert_eq!(find_frame_end(b"\n"), None);
    assert_eq!(find_frame_end(b"\n\n"), Some(2));
    assert_eq!(find_frame_end(b"a\nb\n"), None);
    assert_eq!(find_frame_end(b"a\n\nb\n\n"), Some(3));
    assert_eq!(find_frame_end(b"ab\r\n\r\n"), None);
    assert_eq!(find_frame_end(b"ab\n\n\n"), Some(4));
}

#[test]
fn three_line_feeds_leave_one_behind() {
    let mut decoder = FrameDecoder::new();
    let batch = decoder.feed(b"data: a\n\n\ndata: b\n\n");
    assert_eq!(batch.payloads, vec!["a".to_string()]);
    assert_eq!(decoder.buffered(), 0);
    let batch = decoder.feed(b"data: c\n\n");
    assert_eq!(batch.payloads, vec!["c".to_string()]);
}

#[test]
fn frames_are_pulled_one_at_a_time() {
    let mut decoder = FrameDecoder::new();
    assert_eq!(decoder.next_frame().ok(), Some(None));
    decoder.push(b": hello\n\ndata: one\n\n: again\n\ndata: two\n\ndata: thr");
    assert_eq!(decoder.next_frame().ok(), Some(Some("one".to_string())));
    assert_eq!(decoder.buffered(), ": again\n\ndata: two\n\ndata: thr".len());
    assert_eq!(decoder.next_frame().ok(), Some(Some("two".to_string())));
    assert_eq!(decoder.next_frame().ok(), Some(None));
    assert_eq!(decoder.buffered(), "data: thr".len());
    decoder.push(b"ee\n\ndata: [DONE]\n\ndata: four\n\n");
    assert_eq!(decoder.next_frame().ok(), Some(Some("three".to_string())));
    assert_eq!(decoder.end(), StreamEnd::Open);
    assert_eq!(decoder.next_frame().ok(), Some(None));
    assert_eq!(decoder.end(), StreamEnd::Done);
    assert_eq!(decoder.buffered(), 0);
    decoder.push(b"data: five\n\n");
    assert_eq!(decoder.buffered(), 0);
    assert_eq!(decoder.next_frame().ok(), Some(None));
}

#[test]
fn pulling_meets_the_encoding_error_once() {
    let mut decoder = FrameDecoder::new();
    decoder.push(b"data: a\n\n\xff\n\ndata: b\n\n");
    assert_eq!(decoder.next_frame().ok(), Some(Some("a".to_string())));
    assert!(matches!(decoder.next_frame(), Err(OpenAiError::Unknown(_))));
    assert_eq!(decoder.end(), StreamEnd::Failed);
    assert_eq!(decoder.next_frame().ok(), Some(None));
}

#[test]
fn closing_discards_what_was_waiting() {
    let mut decoder = FrameDecoder::new();
    decoder.push(b"data: unfinished");
    assert_eq!(decoder.close(), 16);
    assert_eq!(decoder.end(), StreamEnd::Done);
    assert_eq!(decoder.buffered(), 0);
    assert_eq!(decoder.close(), 0);
    let mut failed = FrameDecoder::new();
    assert!(failed.feed(b"\xff\n\n").error.is_some());
    assert_eq!(failed.close(), 0);
    assert_eq!(failed.end(), StreamEnd::Failed);
}

#[test]
fn encoding_error_carries_the_words_of_the_decoder() {
    let frame: &[u8] = b"data: caf\xc3\n\n";
    let refusal = std::str::from_utf8(frame).unwrap_err();
    let expected = format!("UTF8 error: {}", refusal);
    match decode_frame(frame) {
        Err(OpenAiError::Unknown(message)) => assert_eq!(message, expected),
        other => panic!("unexpected frame: {:?}", other),
    }
    for cut in 0..=frame.len() {
        let mut decoder = FrameDecoder::new();
        let first = decoder.feed(&[b"data: fine\n\n: note\n\n", &frame[..cut]].concat());
        let second = decoder.feed(&[&frame[cut..], b"data: \xff\xff\n\n"].concat());
        let error = first.error.or(second.error);
        match error {
            Some(OpenAiError::Unknown(message)) => assert_eq!(message, expected),
            other => panic!("unexpected error: {:?}", other),
        }
    }
    let mut decoder = FrameDecoder::new();
    decoder.push(b": note\n\n");
    decoder.push(frame);
    match decoder.next_frame() {
        Err(OpenAiError::Unknown(message)) => assert_eq!(message, expected),
        other => panic!("unexpected frame: {:?}", other),
    }
}
