use monitor::clock::TIMESTAMP_FORMAT;
use monitor::dashboard::{Dashboard, NO_TARGET, NUKE_PAUSE_MS, POST_FAILED, UNKNOWN_ID};
use monitor::ids::collect_ids;
use monitor::message::{ChatMessage, Effect, MessagePayload, Msg};

fn fresh() -> Dashboard {
    Dashboard::new("server".to_string(), "router".to_string())
}

fn payload(id: &str, content: &str) -> Option<MessagePayload> {
    Some(MessagePayload { id: id.to_string(), content: content.to_string() })
}

fn received(d: &mut Dashboard, id: &str, content: &str) -> Vec<Effect> {
    d.update_at(Msg::Received("frame".to_string(), payload(id, content)), "now".to_string())
}

fn typed(d: &mut Dashboard, text: &str) -> Vec<Effect> {
    d.update_at(Msg::InputChanged(text.to_string()), "now".to_string());
    d.update_at(Msg::SendMessage, "now".to_string())
}

fn debug(effects: &Vec<Effect>) -> String {
    format!("{:?}", effects)
}

#[test]
fn starts_empty_and_at_the_bottom() {
    let d = fresh();
    assert!(d.messages.is_empty());
    assert_eq!(d.input_value, "");
    assert_eq!(d.filter_query, "");
    assert_eq!(d.server_ip, "server");
    assert_eq!(d.router_ip, "router");
    assert_eq!(d.selected_id, None);
    assert_eq!(d.latest_id, None);
    assert!(d.is_at_bottom);
    assert_eq!(d.active_target_id(), None);
}

#[test]
fn input_and_filter_are_taken_over() {
    let mut d = fresh();
    assert!(d.update(Msg::InputChanged("abc".to_string())).is_empty());
    assert!(d.update(Msg::FilterChanged("xyz".to_string())).is_empty());
    assert_eq!(d.input_value, "abc");
    assert_eq!(d.filter_query, "xyz");
}

#[test]
fn blank_is_not_sent() {
    let mut d = fresh();
    received(&mut d, "1_2", "hello");
    for blank in ["", "   ", "\t\n", "\u{3000}\u{2028}"] {
        assert!(typed(&mut d, blank).is_empty());
        assert_eq!(d.input_value, blank);
        assert_eq!(d.messages.len(), 1);
    }
}

#[test]
fn send_without_target_only_shows() {
    let mut d = fresh();
    let effects = typed(&mut d, " hi ");
    assert_eq!(debug(&effects), format!("[Print({:?})]", NO_TARGET));
    assert_eq!(NO_TARGET, "Cannot POST: No target ID available.");
    assert_eq!(d.messages.len(), 1);
    assert_eq!(d.messages[0].id, "unknown");
    assert_eq!(d.messages[0].text, " hi ");
    assert!(d.messages[0].is_mine);
    assert_eq!(d.messages[0].timestamp, "now");
    assert_eq!(d.input_value, "");
}

#[test]
fn send_goes_to_the_locked_target_and_releases_it() {
    let mut d = fresh();
    received(&mut d, "latest", "hello");
    d.update_at(Msg::SelectMessage("locked".to_string()), "now".to_string());
    assert_eq!(d.active_target_id(), Some("locked".to_string()));
    let effects = typed(&mut d, "answer");
    assert_eq!(effects.len(), 2);
    match &effects[0] {
        Effect::UpdateNote { nuke, router, id, text, pause_ms } => {
            assert!(!nuke);
            assert_eq!(router, "router");
            assert_eq!(id, "locked");
            assert_eq!(text, "answer");
            assert_eq!(*pause_ms, 0);
        }
        other => panic!("{:?}", other),
    }
    assert!(matches!(effects[1], Effect::SnapToEnd));
    assert_eq!(d.selected_id, None);
    assert_eq!(d.active_target_id(), Some("latest".to_string()));
    assert_eq!(d.messages[1].id, "locked");
    assert!(d.update(Msg::SendMessage).is_empty());
    assert_eq!(d.messages.len(), 2);
}

#[test]
fn lock_holds_until_cleared() {
    let mut d = fresh();
    d.update(Msg::SelectMessage("locked".to_string()));
    received(&mut d, "a", "x");
    assert_eq!(d.active_target_id(), Some("locked".to_string()));
    assert!(d.update(Msg::ClearSelection).is_empty());
    assert_eq!(d.active_target_id(), Some("a".to_string()));
}

#[test]
fn payload_becomes_the_latest() {
    let mut d = fresh();
    let effects = received(&mut d, "a_b", "text");
    assert_eq!(debug(&effects), "[SnapToEnd]");
    assert_eq!(d.latest_id, Some("a_b".to_string()));
    assert_eq!(d.messages[0].id, "a_b");
    assert_eq!(d.messages[0].text, "text");
    assert!(!d.messages[0].is_mine);
}

#[test]
fn other_frames_are_shown_as_they_are() {
    let mut d = fresh();
    received(&mut d, "a", "x");
    d.update_at(Msg::Received("not json".to_string(), None), "now".to_string());
    assert_eq!(d.latest_id, Some("a".to_string()));
    assert_eq!(d.messages[1].id, UNKNOWN_ID);
    assert_eq!(d.messages[1].text, "not json");
}

#[test]
fn scrolls_only_from_the_bottom() {
    let mut d = fresh();
    assert!(d.update(Msg::Scrolled(false)).is_empty());
    assert!(received(&mut d, "a", "x").is_empty());
    d.update(Msg::Scrolled(true));
    assert_eq!(received(&mut d, "a", "x").len(), 1);
}

#[test]
fn nuke_empties_each_note_once_in_order() {
    let mut d = fresh();
    for id in ["b", "a", "b", "B", "é", "a"] {
        received(&mut d, id, "x");
    }
    let effects = d.update(Msg::NukeMessages);
    let mut ids: Vec<String> = Vec::new();
    for effect in &effects {
        match effect {
            Effect::UpdateNote { nuke, router, id, text, pause_ms } => {
                assert!(*nuke);
                assert_eq!(router, "router");
                assert_eq!(text, "");
                assert_eq!(*pause_ms, NUKE_PAUSE_MS);
                assert_eq!(*pause_ms, 100);
                ids.push(id.clone());
            }
            other => panic!("{:?}", other),
        }
    }
    assert_eq!(ids, vec!["B", "a", "b", "é"]);
    assert!(d.messages.is_empty());
    assert_eq!(d.latest_id, Some("a".to_string()));
    assert!(d.update(Msg::NukeMessages).is_empty());
}

#[test]
fn ids_come_out_as_sorted_and_deduplicated() {
    let names = ["zz", "z", "", "a_1", "a", "\u{10ffff}", "\u{ffff}", "z", "a_1"];
    let messages: Vec<ChatMessage> = names
        .iter()
        .map(|id| ChatMessage {
            id: id.to_string(),
            text: String::new(),
            is_mine: false,
            timestamp: String::new(),
        })
        .collect();
    let mut expected: Vec<String> = names.iter().map(|id| id.to_string()).collect();
    expected.sort();
    expected.dedup();
    assert_eq!(collect_ids(&messages), expected);
}

#[test]
fn failures_are_told_and_success_is_not() {
    let mut d = fresh();
    assert!(d.update(Msg::PostResult(Ok(()))).is_empty());
    let effects = d.update(Msg::PostResult(Err("why".to_string())));
    assert_eq!(debug(&effects), "[Print(\"Failed background post task: why\")]");
    assert_eq!(POST_FAILED, "Failed background post task: ");
}

#[test]
fn copies_to_the_clipboard() {
    let mut d = fresh();
    let effects = d.update(Msg::CopyToClipboard("text".to_string()));
    assert_eq!(debug(&effects), "[WriteClipboard(\"text\")]");
}

#[test]
fn messages_are_cloned_whole() {
    let messages = vec![
        Msg::InputChanged("a".to_string()),
        Msg::FilterChanged("b".to_string()),
        Msg::SendMessage,
        Msg::NukeMessages,
        Msg::CopyToClipboard("c".to_string()),
        Msg::Received("d".to_string(), payload("e", "f")),
        Msg::Received("d".to_string(), None),
        Msg::PostResult(Ok(())),
        Msg::PostResult(Err("g".to_string())),
        Msg::SelectMessage("h".to_string()),
        Msg::ClearSelection,
        Msg::Scrolled(true),
    ];
    for message in &messages {
        assert_eq!(format!("{:?}", message.clone()), format!("{:?}", message));
    }
}

#[test]
fn lines_bear_the_local_time() {
    let mut d = fresh();
    d.update(Msg::Received("x".to_string(), None));
    let stamp = d.messages[0].timestamp.clone();
    assert_ne!(stamp, TIMESTAMP_FORMAT);
    let parsed = chrono::NaiveDateTime::parse_from_str(&stamp, TIMESTAMP_FORMAT).unwrap();
    let age = chrono::Local::now().naive_local() - parsed;
    assert!(age.num_minutes().abs() <= 2, "{}", stamp);
    assert_eq!(stamp.len(), 19);
}

#[test]
fn only_stamped_messages_need_the_time() {
    let mut d = fresh();
    assert!(!d.needs_timestamp(&Msg::SendMessage));
    assert!(d.needs_timestamp(&Msg::Received("x".to_string(), None)));
    assert!(!d.needs_timestamp(&Msg::NukeMessages));
    d.update(Msg::InputChanged("x".to_string()));
    assert!(d.needs_timestamp(&Msg::SendMessage));
}

#[test]
fn addresses_and_history_are_kept() {
    let mut d = fresh();
    received(&mut d, "a", "one");
    typed(&mut d, "two");
    d.update(Msg::SelectMessage("b".to_string()));
    d.update(Msg::ClearSelection);
    d.update(Msg::Scrolled(false));
    d.update(Msg::FilterChanged("zzz".to_string()));
    let texts: Vec<String> = d.messages.iter().map(|m| m.text.clone()).collect();
    assert_eq!(texts, vec!["one", "two"]);
    assert_eq!(d.server_ip, "server");
    assert_eq!(d.router_ip, "router");
}

#[test]
fn latest_id_is_the_last_received() {
    let mut d = fresh();
    received(&mut d, "a", "x");
    received(&mut d, "b", "y");
    d.update(Msg::Received("plain".to_string(), None));
    typed(&mut d, "answer");
    d.update(Msg::SelectMessage("c".to_string()));
    d.update(Msg::NukeMessages);
    assert_eq!(d.latest_id, Some("b".to_string()));
}
