use monitor::dashboard::Dashboard;
use monitor::message::{MessagePayload, Msg};
use monitor::screen::{bubble, passes_filter, Rgb, Side, TargetDisplay};

fn board() -> Dashboard {
    let mut d = Dashboard::new("s".to_string(), "r".to_string());
    for (id, content) in [("a", "Hello World"), ("b", "goodbye"), ("a", "ÀÉ wörld")] {
        let payload = MessagePayload { id: id.to_string(), content: content.to_string() };
        d.update_at(Msg::Received(String::new(), Some(payload)), "now".to_string());
    }
    d
}

fn visible(d: &Dashboard) -> Vec<String> {
    d.view().bubbles.iter().map(|b| b.text.clone()).collect()
}

#[test]
fn empty_filter_shows_everything() {
    assert_eq!(visible(&board()), vec!["Hello World", "goodbye", "ÀÉ wörld"]);
}

#[test]
fn filter_ignores_case() {
    let mut d = board();
    d.update(Msg::FilterChanged("WORLD".to_string()));
    assert_eq!(visible(&d), vec!["Hello World"]);
    d.update(Msg::FilterChanged("àé W".to_string()));
    assert_eq!(visible(&d), vec!["ÀÉ wörld"]);
    d.update(Msg::FilterChanged("nothing".to_string()));
    assert!(visible(&d).is_empty());
    assert_eq!(d.messages.len(), 3);
}

#[test]
fn filter_takes_lowered_texts() {
    assert!(passes_filter("abc", ""));
    assert!(passes_filter("", ""));
    assert!(passes_filter("abc", "bc"));
    assert!(!passes_filter("abc", "BC"));
    assert!(!passes_filter("", "a"));
    assert!(!passes_filter("ab", "abc"));
}

#[test]
fn target_is_framed() {
    let mut d = board();
    let framed: Vec<bool> = d.view().bubbles.iter().map(|b| b.is_targeted).collect();
    assert_eq!(framed, vec![true, false, true]);
    d.update(Msg::SelectMessage("b".to_string()));
    let framed: Vec<bool> = d.view().bubbles.iter().map(|b| b.is_targeted).collect();
    assert_eq!(framed, vec![false, true, false]);
}

#[test]
fn sides_and_colours() {
    let mut d = board();
    d.update(Msg::InputChanged("mine".to_string()));
    d.update(Msg::SendMessage);
    let screen = d.view();
    assert_eq!(screen.bubbles[0].side, Side::Left);
    assert_eq!(screen.bubbles[0].background, Rgb { red: 255, green: 255, blue: 255 });
    assert_eq!(screen.bubbles[3].side, Side::Right);
    assert_eq!(screen.bubbles[3].background, Rgb { red: 217, green: 253, blue: 211 });
    assert_eq!(screen.bubbles[0].timestamp, "now");
    assert_eq!(screen.bubbles[0].id, "a");
}

#[test]
fn nothing_is_framed_without_a_target() {
    let d = board();
    let shown = bubble(&d.messages[0], &None);
    assert!(!shown.is_targeted);
}

#[test]
fn target_is_told() {
    let mut d = Dashboard::new("s".to_string(), "r".to_string());
    match d.view().target {
        TargetDisplay::Waiting(line) => assert_eq!(line, "Waiting for target ID..."),
        other => panic!("{:?}", other),
    }
    d.latest_id = Some("x".to_string());
    match d.target_display() {
        TargetDisplay::Automatic(line) => assert_eq!(line, "🔄 Auto-Targeting Latest: x"),
        other => panic!("{:?}", other),
    }
    d.selected_id = Some("y".to_string());
    match d.target_display() {
        TargetDisplay::Locked(line) => assert_eq!(line, "🔒 Locked Target: y"),
        other => panic!("{:?}", other),
    }
}

#[test]
fn fields_show_what_was_typed() {
    let mut d = board();
    d.update(Msg::FilterChanged("Good".to_string()));
    d.update(Msg::InputChanged("typing".to_string()));
    let screen = d.view();
    assert_eq!(screen.filter_query, "Good");
    assert_eq!(screen.input_value, "typing");
    assert_eq!(screen.bubbles.len(), 1);
}

#[test]
fn longer_query_shows_less() {
    let mut d = board();
    d.update(Msg::FilterChanged("o".to_string()));
    assert_eq!(visible(&d), vec!["Hello World", "goodbye"]);
    d.update(Msg::FilterChanged("OO".to_string()));
    assert_eq!(visible(&d), vec!["goodbye"]);
}
