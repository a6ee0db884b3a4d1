use monitor::message::NotePayload;
use monitor::note::{note_url, refusal, NoteUpdate, UPDATED};

fn update(nuke: bool) -> NoteUpdate {
    NoteUpdate::new(nuke, "host:80", "7_8", "new".to_string())
}

#[test]
fn addresses() {
    assert_eq!(note_url("h", "12_34"), "http://h/api/projects/12/subprojects/34/notes");
    assert_eq!(note_url("h", "1_2_3"), "http://h/api/projects/1/subprojects/2_3/notes");
    assert_eq!(note_url("h", "_"), "http://h/api/projects//subprojects//notes");
    assert_eq!(note_url("h", "99"), "http://h/api/skills/99/notes");
    assert_eq!(note_url("h", ""), "http://h/api/skills//notes");
    assert_eq!(update(false).url, "http://host:80/api/projects/7/subprojects/8/notes");
}

#[test]
fn announces_the_address() {
    assert_eq!(
        update(false).announcement(),
        "Fetching current note state from http://host:80/api/projects/7/subprojects/8/notes..."
    );
    assert_eq!(UPDATED, "Success! Note updated.");
}

#[test]
fn adds_to_what_was_read() {
    let current = NotePayload { text: "old".to_string(), version: 41 };
    let next = update(false).after_fetch(Ok(current)).unwrap();
    assert_eq!(next.text, "old\n\nSYSOP\n\nnew");
    assert_eq!(next.version, 41);
}

#[test]
fn nuke_posts_an_empty_note() {
    let current = NotePayload { text: "old".to_string(), version: 3 };
    let next = update(true).after_fetch(Ok(current)).unwrap();
    assert_eq!(next.text, "");
    assert_eq!(next.version, 3);
}

#[test]
fn failed_read_posts_nothing() {
    let failed = update(false).after_fetch(Err("no route".to_string()));
    assert_eq!(failed.unwrap_err(), "no route");
}

#[test]
fn statuses() {
    let u = update(false);
    assert_eq!(u.after_post(Ok(200)), Ok(()));
    assert_eq!(u.after_post(Ok(299)), Ok(()));
    assert_eq!(
        u.after_post(Ok(409)),
        Err("Failed to update. Status: 409 Conflict".to_string())
    );
    assert_eq!(
        u.after_post(Ok(300)),
        Err("Failed to update. Status: 300 Multiple Choices".to_string())
    );
    assert_eq!(
        u.after_post(Ok(199)),
        Err("Failed to update. Status: 199 <unknown status code>".to_string())
    );
    assert_eq!(
        u.after_post(Ok(999)),
        Err("Failed to update. Status: 999 <unknown status code>".to_string())
    );
    assert_eq!(u.after_post(Err("cut off".to_string())), Err("cut off".to_string()));
    assert_eq!(refusal("x"), "Failed to update. Status: x");
}

#[test]
fn every_status_is_written_with_its_digits() {
    for code in 100u16..=999 {
        let reply = update(false).after_post(Ok(code));
        assert_eq!(reply.is_ok(), (200..300).contains(&code));
        if let Err(reason) = reply {
            assert!(reason.starts_with(&format!("Failed to update. Status: {} ", code)));
        }
    }
}

#[test]
fn ids_without_slashes_have_addresses_of_their_own() {
    let ids = ["a", "b", "a_b", "a_", "_a", "_", "", "a_b_c", "ab_c", "skills", "projects_x"];
    for a in ids {
        for b in ids {
            assert_eq!(note_url("h", a) == note_url("h", b), a == b, "{} {}", a, b);
        }
    }
}
