use pipetui::aggregator::{Aggregator, StreamEvent};
use pipetui::execution::{emission_messages, resolve_exit_code, shell_invocation, UiMsg};
use pipetui::persistence::{decode_history, encode_history};
use pipetui::reader::{chunk_texts, LineChunker};

#[test]
fn chunker_cuts_after_each_newline() {
    let mut c = LineChunker::new();
    let a = c.push(b"ab\ncd");
    assert_eq!(a, vec![b"ab\n".to_vec()]);
    let b = c.push(b"\r\nef\n\ng");
    assert_eq!(b, vec![b"cd\n".to_vec(), b"ef\n".to_vec(), b"\n".to_vec()]);
    let last = c.finish();
    assert_eq!(last, Some(b"g".to_vec()));
    let mut joined: Vec<u8> = Vec::new();
    for chunk in a.iter().chain(b.iter()) {
        joined.extend_from_slice(chunk);
    }
    joined.extend_from_slice(&last.unwrap());
    assert_eq!(joined, b"ab\ncd\nef\n\ng".to_vec());
}

#[test]
fn chunker_drops_cr_of_crlf_across_blocks() {
    let mut c = LineChunker::new();
    assert_eq!(c.push(b"a\r"), Vec::<Vec<u8>>::new());
    assert_eq!(c.push(b"\nb\r\r\n\rc\r"), vec![b"a\n".to_vec(), b"b\r\n".to_vec()]);
    // a lone carriage return is kept
    assert_eq!(c.finish(), Some(b"\rc\r".to_vec()));
}

#[test]
fn chunker_with_trailing_newline_has_no_last_chunk() {
    let mut c = LineChunker::new();
    assert_eq!(c.push(b""), Vec::<Vec<u8>>::new());
    assert_eq!(c.push(b"x\n"), vec![b"x\n".to_vec()]);
    assert_eq!(c.finish(), None);
    assert_eq!(LineChunker::new().finish(), None);
}

#[test]
fn chunk_texts_replace_invalid_bytes() {
    let chunks = vec![b"ok\n".to_vec(), vec![0x66, 0xff, 0x0a], "\u{e9}\n".as_bytes().to_vec()];
    let texts = chunk_texts(&chunks);
    assert_eq!(texts, vec!["ok\n".to_string(), "f\u{fffd}\n".to_string(), "\u{e9}\n".to_string()]);
}

#[test]
fn aggregator_batches_until_tick() {
    let mut agg = Aggregator::new();
    for part in ["a\n", "b\n", "c"] {
        let e = agg.step(StreamEvent::StdoutChunk(part.to_string()));
        assert!(e.stdout.is_none() && e.stderr.is_none() && !e.done);
    }
    let e = agg.step(StreamEvent::Tick);
    assert_eq!(e.stdout.as_deref(), Some("a\nb\nc"));
    assert!(e.stderr.is_none());
    assert!(!e.done);
    let e = agg.step(StreamEvent::Tick);
    assert!(e.stdout.is_none() && e.stderr.is_none() && !e.done);
}

#[test]
fn aggregator_flushes_before_done() {
    let mut agg = Aggregator::new();
    agg.step(StreamEvent::StderrChunk("late".to_string()));
    let e = agg.step(StreamEvent::StdoutClosed);
    assert!(e.stdout.is_none() && e.stderr.is_none() && !e.done);
    assert!(!agg.stdout_open());
    let e = agg.step(StreamEvent::StderrClosed);
    assert!(e.stdout.is_none() && e.stderr.is_none());
    assert!(!e.done);
    assert!(!agg.stderr_open());
    let e = agg.step(StreamEvent::Tick);
    assert_eq!(e.stderr.as_deref(), Some("late"));
    assert!(e.done);
    let last = agg.finish();
    assert!(last.stdout.is_none() && last.stderr.is_none() && last.done);
}

#[test]
fn aggregator_done_at_close_when_nothing_pending() {
    let mut agg = Aggregator::new();
    assert!(!agg.step(StreamEvent::StderrClosed).done);
    assert!(agg.step(StreamEvent::StdoutClosed).done);
}

#[test]
fn aggregator_final_flush_hands_on_residue() {
    let mut agg = Aggregator::new();
    agg.step(StreamEvent::StdoutChunk("x".to_string()));
    agg.step(StreamEvent::StderrChunk("y".to_string()));
    let e = agg.finish();
    assert_eq!(e.stdout.as_deref(), Some("x"));
    assert_eq!(e.stderr.as_deref(), Some("y"));
    let msgs = emission_messages(e);
    assert!(matches!(&msgs[0], UiMsg::StdoutChunk(s) if s == "x"));
    assert!(matches!(&msgs[1], UiMsg::StderrChunk(s) if s == "y"));
}

#[test]
fn exit_codes() {
    assert_eq!(resolve_exit_code(Some(0)), 0);
    assert_eq!(resolve_exit_code(Some(127)), 127);
    assert_eq!(resolve_exit_code(None), -1);
}

#[test]
fn shell_invocations() {
    let (p, args) = shell_invocation("echo hi | wc -c", false);
    assert_eq!(p, "sh");
    assert_eq!(args, vec!["-c".to_string(), "echo hi | wc -c".to_string()]);
    let (p, args) = shell_invocation("dir", true);
    assert_eq!(p, "cmd");
    assert_eq!(args, vec!["/C".to_string(), "dir".to_string()]);
}

#[test]
fn history_json_round_trip() {
    let h = vec!["ls".to_string(), "echo \"q\"".to_string()];
    let text = encode_history(&h);
    assert!(text.contains('\n'));
    assert_eq!(decode_history(&text), h);
    assert_eq!(decode_history("[\"a\", \"b\"]"), vec!["a".to_string(), "b".to_string()]);
}

#[test]
fn bad_history_json_gives_empty_history() {
    assert!(decode_history("not json").is_empty());
    assert!(decode_history("{\"a\": 1}").is_empty());
    assert!(decode_history("[1, 2]").is_empty());
    assert!(decode_history("").is_empty());
}
