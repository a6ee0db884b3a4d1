use monitor::link::{connect_notice, link_step, ws_url, LinkEvent, LinkNext, LinkStep};

fn reconnects(step: &LinkStep) -> bool {
    matches!(step.next, LinkNext::ReconnectAfter(2000))
}

#[test]
fn address_of_the_socket() {
    assert_eq!(ws_url("10.0.0.1"), "ws://10.0.0.1:5656/ws");
    assert_eq!(connect_notice("ws://x"), "Attempting to connect to WS: ws://x");
}

#[test]
fn frames_keep_the_link() {
    let connected = link_step(LinkEvent::Connected);
    assert_eq!(connected.say, Some("Successfully connected to server.".to_string()));
    assert!(matches!(connected.next, LinkNext::Read));
    let text = link_step(LinkEvent::Text("t".to_string()));
    assert_eq!(text.deliver, Some("t".to_string()));
    assert_eq!(text.say, None);
    assert!(matches!(text.next, LinkNext::Read));
    let other = link_step(LinkEvent::OtherFrame);
    assert_eq!(other.deliver, None);
    assert!(matches!(other.next, LinkNext::Read));
}

#[test]
fn losses_reconnect_after_two_seconds() {
    let failed = link_step(LinkEvent::ConnectFailed("e".to_string()));
    assert_eq!(failed.say, Some("Failed to connect to WS: e. Retrying...".to_string()));
    assert!(reconnects(&failed));
    let closed = link_step(LinkEvent::Closed);
    assert_eq!(closed.say, Some("Server closed the connection.".to_string()));
    assert!(reconnects(&closed));
    let read = link_step(LinkEvent::ReadFailed("e".to_string()));
    assert_eq!(read.say, Some("WebSocket read error: e".to_string()));
    assert!(reconnects(&read));
    let ended = link_step(LinkEvent::Ended);
    assert_eq!(ended.say, None);
    assert!(reconnects(&ended));
}

#[test]
fn text_frames_are_handed_on_until_the_first_loss() {
    let run = vec![
        LinkEvent::Connected,
        LinkEvent::Text("1".to_string()),
        LinkEvent::OtherFrame,
        LinkEvent::Text("2".to_string()),
        LinkEvent::Text("2".to_string()),
        LinkEvent::Closed,
        LinkEvent::Text("3".to_string()),
    ];
    let mut delivered: Vec<String> = Vec::new();
    for event in run {
        let step = link_step(event);
        if let Some(text) = step.deliver {
            delivered.push(text);
        }
        if let LinkNext::ReconnectAfter(_) = step.next {
            break;
        }
    }
    assert_eq!(delivered, vec!["1", "2", "2"]);
}
