use pluely::stream::{ChatStream, StreamEvent};

fn run(chunks: &[&[u8]]) -> (Vec<String>, Vec<Option<String>>, String, Option<String>) {
    let mut s = ChatStream::new();
    let mut deltas = Vec::new();
    let mut beacons = Vec::new();
    for c in chunks {
        for e in s.feed(c) {
            match e {
                StreamEvent::Delta(d) => deltas.push(d),
                StreamEvent::Activity(u) => beacons.push(u),
            }
        }
    }
    (deltas, beacons, s.full_text(), s.usage())
}

const HI: &[u8] = b"data: {\"choices\":[{\"delta\":{\"content\":\"Hi\"}}]}\n\ndata: [DONE]\n";

#[test]
fn single_delta_then_done() {
    let (deltas, beacons, text, usage) = run(&[HI]);
    assert_eq!(deltas, vec!["Hi".to_string()]);
    assert_eq!(text, "Hi");
    assert_eq!(beacons, vec![None]);
    assert_eq!(usage, None);
}

fn frames() -> Vec<u8> {
    let mut v = Vec::new();
    v.extend_from_slice(b"data: {\"choices\":[{\"delta\":{\"content\":\"Hel\"}}]}\n");
    v.extend_from_slice(b": keep-alive\n");
    v.extend_from_slice("data: {\"choices\":[{\"delta\":{\"content\":\"lo, w\u{f6}rld\"}}]}\r\n".as_bytes());
    v.extend_from_slice(b"data: {\"choices\":[{\"delta\":{}}],\"usage\":{\"total_tokens\":7}}\n");
    v.extend_from_slice(b"data: {\"choices\":[{\"delta\":{\"content\":\"!\"}}]}\n");
    v.extend_from_slice(b"data: [DONE]\n");
    v
}

#[test]
fn any_chunking_gives_same_result() {
    let all = frames();
    let whole = run(&[&all]);
    assert_eq!(whole.0, vec!["Hel".to_string(), "lo, w\u{f6}rld".to_string(), "!".to_string()]);
    assert_eq!(whole.2, "Hello, w\u{f6}rld!");
    assert_eq!(whole.3, Some("{\"total_tokens\":7}".to_string()));
    for size in 1..all.len() {
        let pieces: Vec<&[u8]> = all.chunks(size).collect();
        assert_eq!(run(&pieces), whole, "chunk size {}", size);
    }
    for cut in 0..=all.len() {
        let (a, b) = all.split_at(cut);
        assert_eq!(run(&[a, b]), whole, "cut at {}", cut);
    }
}

#[test]
fn only_first_usage_is_captured() {
    let input = b"data: {\"usage\":null}\ndata: {\"usage\":{\"a\":1}}\ndata: {\"usage\":{\"a\":2},\"choices\":[{\"delta\":{\"content\":\"x\"}}]}\n";
    let (deltas, beacons, _, usage) = run(&[input]);
    assert_eq!(deltas, vec!["x".to_string()]);
    assert_eq!(usage, Some("{\"a\":1}".to_string()));
    assert_eq!(beacons, vec![Some("{\"a\":1}".to_string())]);
}

#[test]
fn activity_beacon_once_per_turn() {
    let input = b"data: {\"choices\":[{\"delta\":{\"content\":\"a\"}}]}\ndata: {\"choices\":[{\"delta\":{\"content\":\"b\"}}]}\n";
    let mut s = ChatStream::new();
    let events = s.feed(input);
    assert_eq!(events.len(), 3);
    assert!(matches!(&events[0], StreamEvent::Delta(d) if d == "a"));
    assert!(matches!(&events[1], StreamEvent::Activity(None)));
    assert!(matches!(&events[2], StreamEvent::Delta(d) if d == "b"));
}

#[test]
fn done_ends_only_the_current_batch() {
    let first = b"data: [DONE]\ndata: {\"choices\":[{\"delta\":{\"content\":\"skipped\"}}]}\n";
    let second = b"data: {\"choices\":[{\"delta\":{\"content\":\"read\"}}]}\n";
    let (deltas, _, text, _) = run(&[first, second]);
    assert_eq!(deltas, vec!["read".to_string()]);
    assert_eq!(text, "read");
}

#[test]
fn incomplete_last_line_is_not_processed() {
    let input = b"data: {\"choices\":[{\"delta\":{\"content\":\"x\"}}]}";
    let (deltas, _, text, _) = run(&[input]);
    assert!(deltas.is_empty());
    assert_eq!(text, "");
}

#[test]
fn malformed_frames_are_ignored() {
    let input = b"data: not json\ndata: \nevent: ping\ndata: {\"choices\":[]}\ndata: {\"choices\":[{\"delta\":{\"content\":\"ok\"}}]}\n";
    let (deltas, _, text, _) = run(&[input]);
    assert_eq!(deltas, vec!["ok".to_string()]);
    assert_eq!(text, "ok");
}

#[test]
fn multibyte_character_split_across_chunks() {
    let all = "data: {\"choices\":[{\"delta\":{\"content\":\"\u{1f600}\"}}]}\n".as_bytes().to_vec();
    let pos = all.iter().position(|b| *b == 0xf0).unwrap();
    let (a, b) = all.split_at(pos + 2);
    let (deltas, _, _, _) = run(&[a, b]);
    assert_eq!(deltas, vec!["\u{1f600}".to_string()]);
}

#[test]
fn invalid_utf8_is_replaced() {
    let input = b"data: {\"choices\":[{\"delta\":{\"content\":\"a\xffb\"}}]}\n";
    let (deltas, _, text, _) = run(&[input]);
    assert_eq!(deltas, vec!["a\u{fffd}b".to_string()]);
    assert_eq!(text, "a\u{fffd}b");
}
