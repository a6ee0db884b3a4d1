use std::io::Write;

use monitor::message::MessagePayload;
use monitor::relay::{relay_step, RelayAction, RelayEvent};
use monitor::watch::{
    archive_id, is_archive, LastContents, BROADCAST_CAPACITY, DEBOUNCE_MS, LISTEN_ADDRESS,
};

fn name(s: &str) -> Option<Vec<u8>> {
    Some(s.as_bytes().to_vec())
}

fn zipped(members: &[(&str, &[u8])]) -> Vec<u8> {
    let mut writer = zip::ZipWriter::new(std::io::Cursor::new(Vec::new()));
    for (name, content) in members {
        writer.start_file(*name, zip::write::SimpleFileOptions::default()).unwrap();
        writer.write_all(content).unwrap();
    }
    writer.finish().unwrap().into_inner()
}

fn stored(content: &[u8]) -> Vec<u8> {
    let options = zip::write::SimpleFileOptions::default()
        .compression_method(zip::CompressionMethod::Stored);
    let mut writer = zip::ZipWriter::new(std::io::Cursor::new(Vec::new()));
    writer.start_file("x", options).unwrap();
    writer.write_all(content).unwrap();
    writer.finish().unwrap().into_inner()
}

/// The archive with another compression method written into its headers.
fn with_method(archive: &[u8], method: u8) -> Vec<u8> {
    let mut bytes = archive.to_vec();
    for i in 0..bytes.len() - 4 {
        if bytes[i..i + 4] == [0x50, 0x4b, 0x03, 0x04] {
            bytes[i + 8] = method;
        }
        if bytes[i..i + 4] == [0x50, 0x4b, 0x01, 0x02] {
            bytes[i + 10] = method;
        }
    }
    bytes
}

fn shown(payload: Option<MessagePayload>) -> Option<(String, String)> {
    payload.map(|p| (p.id, p.content))
}

#[test]
fn settings() {
    assert_eq!(LISTEN_ADDRESS, "0.0.0.0:5656");
    assert_eq!(DEBOUNCE_MS, 500);
    assert_eq!(BROADCAST_CAPACITY, 100);
}

#[test]
fn extensions_agree_with_paths() {
    for s in [
        "a.zip", ".zip", "..zip", "a.b.zip", "zip", "a.ZIP", "a.zip.bak", "a.zip.", "azip", "a.zi",
        "é.zip",
    ] {
        let expected = std::path::Path::new(s).extension().map_or(false, |e| e == "zip");
        assert_eq!(is_archive(&name(s)), expected, "{}", s);
    }
    assert!(!is_archive(&None));
    assert!(is_archive(&Some(vec![0xff, 0x2e, 0x7a, 0x69, 0x70])));
}

#[test]
fn ids_end_at_the_first_dot() {
    assert_eq!(archive_id(&name("12_3.tar.zip")), "12_3");
    assert_eq!(archive_id(&name("nodot")), "nodot");
    assert_eq!(archive_id(&name(".a.zip")), "");
    assert_eq!(archive_id(&name("é.zip")), "é");
    assert_eq!(archive_id(&Some(vec![0xff, 0x2e])), "unknown");
    assert_eq!(archive_id(&None), "unknown");
}

#[test]
fn first_member_is_broadcast() {
    let last = LastContents::new();
    let bytes = zipped(&[("x.txt", b"hello"), ("y.txt", b"other")]);
    let news = last.observe(&b"/d/7.zip".to_vec(), &name("7.zip"), &bytes);
    assert_eq!(shown(news), Some(("7".to_string(), "hello".to_string())));
}

#[test]
fn what_cannot_be_read_is_no_news() {
    let last = LastContents::new();
    let path = b"/d/7.zip".to_vec();
    assert!(last.observe(&path, &name("7.zip"), b"no archive").is_none());
    assert!(last.observe(&path, &name("7.zip"), &zipped(&[])).is_none());
    assert!(last.observe(&path, &name("7.zip"), &zipped(&[("x", &[0xff, 0xfe])])).is_none());
    assert!(last.observe(&path, &name("7.txt"), &zipped(&[("x", b"y")])).is_none());
    assert!(last.observe_content(&path, &name("7.zip"), None).is_none());
    assert!(last.observe_content(&path, &None, Some("x".to_string())).is_none());
}

#[test]
fn same_text_is_broadcast_once() {
    let mut last = LastContents::new();
    let path = b"/d/7.zip".to_vec();
    let other = b"/d/8.zip".to_vec();
    let bytes = zipped(&[("x", b"one")]);
    let news = last.observe(&path, &name("7.zip"), &bytes).unwrap();
    assert_eq!(
        last.encoded(path.clone(), news, Some("json".to_string())),
        Some("json".to_string())
    );
    assert!(last.observe(&path, &name("7.zip"), &bytes).is_none());
    assert!(last.observe(&other, &name("8.zip"), &bytes).is_some());
    let two = last.observe_content(&path, &name("7.zip"), Some("two".to_string())).unwrap();
    last.encoded(path.clone(), two, Some("json".to_string()));
    assert!(last.differs(&path, &"one".to_string()));
    assert!(!last.differs(&path, &"two".to_string()));
    last.record(other.clone(), "three".to_string());
    assert!(!last.differs(&path, &"two".to_string()));
    assert!(!last.differs(&other, &"three".to_string()));
}

#[test]
fn what_was_not_written_out_is_not_remembered() {
    let mut last = LastContents::new();
    let path = b"p".to_vec();
    let payload = MessagePayload { id: "a".to_string(), content: "c".to_string() };
    assert_eq!(last.encoded(path.clone(), payload.clone(), None), None);
    assert!(last.differs(&path, &"c".to_string()));
}

#[test]
fn relay_passes_on_until_either_side_is_done() {
    match relay_step(RelayEvent::Broadcast(Some("m".to_string()))) {
        RelayAction::Send(m) => assert_eq!(m, "m"),
        other => panic!("{:?}", other),
    }
    assert!(matches!(relay_step(RelayEvent::Broadcast(None)), RelayAction::Stop));
    assert!(matches!(relay_step(RelayEvent::Sent(true)), RelayAction::Wait));
    assert!(matches!(relay_step(RelayEvent::Sent(false)), RelayAction::Stop));
    assert!(matches!(relay_step(RelayEvent::Heard(true)), RelayAction::Wait));
    assert!(matches!(relay_step(RelayEvent::Heard(false)), RelayAction::Stop));
}

#[test]
fn ids_hold_no_dot() {
    for s in ["a.b.zip", "...zip", "a", ".", "é.é.zip"] {
        assert!(!archive_id(&name(s)).contains('.'));
    }
}

#[test]
fn stored_and_deflated_members_are_read() {
    let last = LastContents::new();
    let path = b"p".to_vec();
    let long = "abc ".repeat(20_000);
    let plain = stored(long.as_bytes());
    let packed = zipped(&[("x", long.as_bytes())]);
    assert!(packed.len() < plain.len());
    for bytes in [plain, packed] {
        let news = last.observe(&path, &name("7.zip"), &bytes);
        assert_eq!(shown(news), Some(("7".to_string(), long.clone())));
    }
}

#[test]
fn members_packed_otherwise_are_no_news() {
    let last = LastContents::new();
    let path = b"p".to_vec();
    let plain = stored(b"hello");
    assert!(last.observe(&path, &name("7.zip"), &with_method(&plain, 0)).is_some());
    for method in [1u8, 6, 9, 12, 14, 93, 95, 98, 99] {
        assert!(last.observe(&path, &name("7.zip"), &with_method(&plain, method)).is_none());
    }
}

#[test]
fn damaged_archives_are_no_panic() {
    let last = LastContents::new();
    let path = b"p".to_vec();
    let packed = zipped(&[("x", "some text, some more text, and some text again".as_bytes())]);
    for i in 0..packed.len() {
        let mut bytes = packed.clone();
        bytes[i] ^= 0x55;
        last.observe(&path, &name("7.zip"), &bytes);
        last.observe(&path, &name("7.zip"), &packed[..i]);
    }
}

#[test]
fn broadcasts_are_readings_without_repeats() {
    let mut last = LastContents::new();
    let run = [
        ("a", "1"), ("b", "1"), ("a", "1"), ("b", "2"), ("a", "2"), ("a", "2"), ("b", "2"),
        ("a", "1"),
    ];
    let mut sent: Vec<(String, String)> = Vec::new();
    for (path, content) in run {
        let key = path.as_bytes().to_vec();
        let news = last.observe_content(&key, &name("x.zip"), Some(content.to_string()));
        if let Some(payload) = news {
            sent.push((path.to_string(), payload.content.clone()));
            last.encoded(key, payload, Some(String::new()));
        }
    }
    let of = |path: &str| -> Vec<String> {
        sent.iter().filter(|(p, _)| p == path).map(|(_, c)| c.clone()).collect()
    };
    assert_eq!(of("a"), vec!["1", "2", "1"]);
    assert_eq!(of("b"), vec!["1", "2"]);
}

#[test]
fn relay_hands_on_every_broadcast() {
    let run = vec![
        RelayEvent::Broadcast(Some("1".to_string())),
        RelayEvent::Sent(true),
        RelayEvent::Heard(true),
        RelayEvent::Broadcast(Some("2".to_string())),
        RelayEvent::Sent(true),
        RelayEvent::Broadcast(Some("2".to_string())),
    ];
    let mut handed: Vec<String> = Vec::new();
    for event in run {
        match relay_step(event) {
            RelayAction::Send(text) => handed.push(text),
            RelayAction::Wait => {}
            RelayAction::Stop => panic!("stopped"),
        }
    }
    assert_eq!(handed, vec!["1", "2", "2"]);
}

#[test]
fn relay_is_silent_after_its_end() {
    let run = vec![
        RelayEvent::Broadcast(Some("1".to_string())),
        RelayEvent::Sent(false),
        RelayEvent::Broadcast(Some("2".to_string())),
    ];
    let mut handed: Vec<String> = Vec::new();
    for event in run {
        match relay_step(event) {
            RelayAction::Send(text) => handed.push(text),
            RelayAction::Wait => {}
            RelayAction::Stop => break,
        }
    }
    assert_eq!(handed, vec!["1"]);
}
