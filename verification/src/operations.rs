//! What one call of each operation gives, said of what goes in and what comes out.
//!
//! Each law here takes the arguments of a call and what the call came back with, and states what
//! any caller can see of them: which characters a text holds, which fields changed and which did
//! not, which of several outcomes it was.
use vstd::prelude::*;
use vstd::utf8;

use crate::clock;
use crate::dashboard;
use crate::dashboard::Dashboard;
use crate::ids;
use crate::link;
use crate::link::{LinkEvent, LinkNext, LinkSignal, LinkStep};
use crate::message;
use crate::message::{
    ChatLine, ChatMessage, Demand, Effect, MessagePayload, Msg, NotePayload, Signal,
};
use crate::note;
use crate::note::NoteUpdate;
use crate::relay;
use crate::relay::{RelayAction, RelayEvent, RelayMove};
use crate::screen;
use crate::screen::{Bubble, Rgb, Screen, Side, TargetCaption, TargetDisplay};
use crate::text;
use crate::watch;
use crate::watch::LastContents;

verus! {

/// The fixed words and numbers of the monitor.
pub proof fn law_fixed_words()
    ensures
        clock::TIMESTAMP_FORMAT@ == "%Y-%m-%d %I:%M %p"@,
        dashboard::UNKNOWN_ID@ == "unknown"@,
        dashboard::NO_TARGET@ == "Cannot POST: No target ID available."@,
        dashboard::POST_FAILED@ == "Failed background post task: "@,
        dashboard::NUKE_PAUSE_MS == 100,
        link::RECONNECT_PAUSE_MS == 2000,
        note::SYSOP_MARK@ == "\n\nSYSOP\n\n"@,
        note::UPDATED@ == "Success! Note updated."@,
        note::REFUSED@ == "Failed to update. Status: "@,
        watch::DEBOUNCE_MS == 500,
        watch::BROADCAST_CAPACITY == 100,
        watch::LISTEN_ADDRESS@ == "0.0.0.0:5656"@,
        watch::MEMBER_INDEX == 0,
{
}

/// Lists of texts and optional texts, bytes and payloads stand for what they hold.
pub proof fn law_plain_contents(
    list: Seq<String>,
    i: int,
    t: String,
    bytes: Vec<u8>,
    payload: MessagePayload,
)
    ensures
        text::texts(list).len() == list.len(),
        0 <= i < list.len() ==> text::texts(list)[i] == list[i]@,
        text::opt_text(Some(t)) == Some(t@),
        text::opt_text(None) == None::<Seq<char>>,
        watch::opt_bytes(Some(bytes)) == Some(bytes@),
        watch::opt_bytes(None) == None::<Seq<u8>>,
        watch::opt_payload(Some(payload)) == Some(payload@),
        watch::opt_payload(None) == None::<message::Payload>,
{
}

/// The contents of messages and payloads are those of their fields.
pub proof fn law_contents_of_messages(
    messages: Seq<ChatMessage>,
    i: int,
    payload: MessagePayload,
    kept: NotePayload,
)
    ensures
        message::lines(messages).len() == messages.len(),
        0 <= i < messages.len() ==> message::lines(messages)[i].id == messages[i].id@,
        0 <= i < messages.len() ==> message::lines(messages)[i].text == messages[i].text@,
        0 <= i < messages.len() ==> message::lines(messages)[i].is_mine == messages[i].is_mine,
        0 <= i < messages.len() ==> message::lines(messages)[i].timestamp == messages[i].timestamp@,
        0 <= i < messages.len() ==> messages[i]@ == message::lines(messages)[i],
        payload@.id == payload.id@,
        payload@.content == payload.content@,
        kept@.text == kept.text@,
        kept@.version == kept.version,
{
}

/// The contents of what happens to the dashboard are those of what came.
pub proof fn law_contents_of_signals(t: String, payload: MessagePayload, flag: bool)
    ensures
        Msg::InputChanged(t)@ == Signal::InputChanged(t@),
        Msg::FilterChanged(t)@ == Signal::FilterChanged(t@),
        Msg::SendMessage@ == Signal::SendMessage,
        Msg::NukeMessages@ == Signal::NukeMessages,
        Msg::CopyToClipboard(t)@ == Signal::CopyToClipboard(t@),
        Msg::Received(t, Some(payload))@ == Signal::Received(t@, Some(payload@)),
        Msg::Received(t, None)@ == Signal::Received(t@, None),
        Msg::PostResult(Ok(()))@ == Signal::PostResult(Ok(())),
        Msg::PostResult(Err(t))@ == Signal::PostResult(Err(t@)),
        Msg::SelectMessage(t)@ == Signal::SelectMessage(t@),
        Msg::ClearSelection@ == Signal::ClearSelection,
        Msg::Scrolled(flag)@ == Signal::Scrolled(flag),
{
}

/// The contents of what the dashboard asks for are those of the effects, one for one.
pub proof fn law_contents_of_effects(
    effects: Seq<Effect>,
    i: int,
    nuke: bool,
    router: String,
    id: String,
    t: String,
    pause_ms: u64,
)
    ensures
        message::demands(effects).len() == effects.len(),
        0 <= i < effects.len() ==> message::demands(effects)[i] == effects[i]@,
        Effect::SnapToEnd@ == Demand::SnapToEnd,
        Effect::WriteClipboard(t)@ == Demand::WriteClipboard(t@),
        Effect::Print(t)@ == Demand::Print(t@),
        (Effect::UpdateNote { nuke, router, id, text: t, pause_ms })@ == (Demand::UpdateNote {
            nuke,
            router: router@,
            id: id@,
            text: t@,
            pause_ms,
        }),
{
}

/// The contents of what is shown are those of its fields.
pub proof fn law_contents_of_the_screen(bubbles: Seq<Bubble>, i: int, t: String)
    ensures
        screen::looks(bubbles).len() == bubbles.len(),
        0 <= i < bubbles.len() ==> screen::looks(bubbles)[i].id == bubbles[i].id@,
        0 <= i < bubbles.len() ==> screen::looks(bubbles)[i].text == bubbles[i].text@,
        0 <= i < bubbles.len() ==> screen::looks(bubbles)[i].timestamp == bubbles[i].timestamp@,
        0 <= i < bubbles.len() ==> screen::looks(bubbles)[i].side == bubbles[i].side,
        0 <= i < bubbles.len() ==> screen::looks(bubbles)[i].background == bubbles[i].background,
        0 <= i < bubbles.len() ==> screen::looks(bubbles)[i].is_targeted == bubbles[i].is_targeted,
        0 <= i < bubbles.len() ==> bubbles[i]@ == screen::looks(bubbles)[i],
        TargetDisplay::Locked(t)@ == TargetCaption::Locked(t@),
        TargetDisplay::Automatic(t)@ == TargetCaption::Automatic(t@),
        TargetDisplay::Waiting(t)@ == TargetCaption::Waiting(t@),
{
}

/// The contents of what happens on a link, and of what is done about a socket, are those of what
/// came and of what is done.
pub proof fn law_contents_of_the_wire(t: String)
    ensures
        LinkEvent::Connected@ == LinkSignal::Connected,
        LinkEvent::ConnectFailed(t)@ == LinkSignal::ConnectFailed(t@),
        LinkEvent::Text(t)@ == LinkSignal::Text(t@),
        LinkEvent::OtherFrame@ == LinkSignal::OtherFrame,
        LinkEvent::Closed@ == LinkSignal::Closed,
        LinkEvent::ReadFailed(t)@ == LinkSignal::ReadFailed(t@),
        LinkEvent::Ended@ == LinkSignal::Ended,
        RelayAction::Send(t)@ == RelayMove::Send(t@),
        RelayAction::Wait@ == RelayMove::Wait,
        RelayAction::Stop@ == RelayMove::Stop,
{
}

/// The contents of a dashboard are those of its fields.
pub proof fn law_contents_of_the_dashboard(d: Dashboard)
    ensures
        d.board().messages.len() == d.messages@.len(),
        forall|i: int|
            0 <= i < d.messages@.len() ==> #[trigger] d.board().messages[i] == d.messages@[i]@,
        d.board().input_value == d.input_value@,
        d.board().filter_query == d.filter_query@,
        d.board().server_ip == d.server_ip@,
        d.board().router_ip == d.router_ip@,
        d.board().selected_id is Some <==> d.selected_id is Some,
        d.selected_id matches Some(id) ==> d.board().selected_id == Some(id@),
        d.board().latest_id is Some <==> d.latest_id is Some,
        d.latest_id matches Some(id) ==> d.board().latest_id == Some(id@),
        d.board().is_at_bottom == d.is_at_bottom,
{
}

/// A copy of a message, of a payload or of what happens equals what it was made of.
pub proof fn law_copies(
    line: ChatMessage,
    copied_line: ChatMessage,
    payload: MessagePayload,
    copied_payload: MessagePayload,
    msg: Msg,
    copied_msg: Msg,
)
    requires
        call_ensures(ChatMessage::clone, (&line,), copied_line),
        call_ensures(MessagePayload::clone, (&payload,), copied_payload),
        call_ensures(Msg::clone, (&msg,), copied_msg),
    ensures
        copied_line == line,
        copied_payload == payload,
        copied_msg == msg,
{
}

/// The characters of a text, one after the other, are the text.
pub proof fn law_characters(s: &str, r: Vec<char>)
    requires
        call_ensures(text::characters, (s,), r),
    ensures
        r@.len() == s@.len(),
        forall|i: int| 0 <= i < s@.len() ==> #[trigger] r@[i] == s@[i],
{
}

/// The white space of Unicode: the tab and the four line breaks after it, the space, the next
/// line, the fixed space, the spaces of the typographers, the line and the paragraph separator.
pub proof fn law_white_space(c: char, r: bool)
    requires
        call_ensures(text::is_whitespace, (c,), r),
    ensures
        r <==> ('\t' <= c <= '\r' || c == ' ' || c == '\u{85}' || c == '\u{a0}' || c == '\u{1680}'
            || '\u{2000}' <= c <= '\u{200a}' || c == '\u{2028}' || c == '\u{2029}' || c
            == '\u{202f}' || c == '\u{205f}' || c == '\u{3000}'),
        text::is_space(c) == r,
{
}

/// A text is blank exactly where no character of it is anything but white space: the empty text
/// is, and a text is where both halves of it are, wherever it is cut.
pub proof fn law_blank(s: &str, r: bool, a: Seq<char>, c: char, b: Seq<char>)
    requires
        call_ensures(text::blank, (s,), r),
    ensures
        s@.len() == 0 ==> r,
        s@ == a.push(c) + b && !text::is_space(c) ==> !r,
        !r ==> exists|i: int| 0 <= i < s@.len() && !text::is_space(#[trigger] s@[i]),
        text::is_blank(s@) == r,
        text::is_blank(a + b) <==> text::is_blank(a) && text::is_blank(b),
        text::is_blank(seq![c]) == text::is_space(c),
{
    if s@ == a.push(c) + b {
        assert(s@[a.len() as int] == c);
    }
    let both = a + b;
    if text::is_blank(both) {
        assert forall|i: int| 0 <= i < a.len() implies text::is_space(#[trigger] a[i]) by {
            assert(text::is_space(both[i]));
        }
        assert forall|i: int| 0 <= i < b.len() implies text::is_space(#[trigger] b[i]) by {
            assert(text::is_space(both[a.len() + i]));
        }
    }
    assert(seq![c][0] == c);
}

/// A text is cut at the first of the characters looked for: put together again the two parts and
/// that character are the text, and the first part does not hold it. A text that is not cut does
/// not hold it at all.
pub proof fn law_split_once(s: &str, c: char, r: Option<(String, String)>)
    requires
        call_ensures(text::split_once, (s, c), r),
    ensures
        r matches Some(parts) ==> s@ == parts.0@.push(c) + parts.1@ && !parts.0@.contains(c),
        r is None <==> !s@.contains(c),
{
    text::lemma_find(s@, c);
    let k = text::find(s@, c) as int;
    if k < s@.len() {
        assert(s@ =~= s@.take(k).push(c) + s@.skip(k + 1));
        assert(s@.contains(s@[k]));
    }
}

/// A text contains another exactly where it is that one with something before it and something
/// after it, either of which may be empty.
pub proof fn law_contains(haystack: &str, needle: &str, r: bool)
    requires
        call_ensures(text::contains, (haystack, needle), r),
    ensures
        r <==> exists|before: Seq<char>, after: Seq<char>|
            haystack@ == #[trigger] (before + needle@ + after),
{
    lemma_occurs(haystack@, needle@);
}

proof fn lemma_occurs(whole: Seq<char>, part: Seq<char>)
    ensures
        text::occurs(whole, part) <==> exists|before: Seq<char>, after: Seq<char>|
            whole == #[trigger] (before + part + after),
{
    if text::occurs(whole, part) {
        let at = choose|at: int| text::occurs_at(whole, part, at);
        let before = whole.take(at);
        let after = whole.skip(at + part.len());
        assert(whole =~= before + whole.subrange(at, at + part.len()) + after);
        assert(whole == before + part + after);
    }
    if exists|before: Seq<char>, after: Seq<char>| whole == #[trigger] (before + part + after) {
        let (before, after) = choose|before: Seq<char>, after: Seq<char>|
            whole == #[trigger] (before + part + after);
        assert(whole.subrange(before.len() as int, (before.len() + part.len()) as int) =~= part);
        assert(text::occurs_at(whole, part, before.len() as int));
    }
}

/// One text comes before another where, at the first of their UTF-8 bytes in which they differ,
/// it holds the smaller one, or where it is a proper beginning of the other.
pub proof fn law_precedes(a: &str, b: &str, r: bool)
    requires
        call_ensures(text::precedes, (a, b), r),
    ensures
        forall|k: int|
            0 <= k < utf8::encode_utf8(a@).len() && k < utf8::encode_utf8(b@).len()
                && utf8::encode_utf8(a@).take(k) == utf8::encode_utf8(b@).take(k)
                && utf8::encode_utf8(a@)[k] != utf8::encode_utf8(b@)[k] ==> r == (
            #[trigger] utf8::encode_utf8(a@)[k] < #[trigger] utf8::encode_utf8(b@)[k]),
        utf8::encode_utf8(a@).is_prefix_of(utf8::encode_utf8(b@)) ==> r == (utf8::encode_utf8(
            a@,
        ).len() < utf8::encode_utf8(b@).len()),
        utf8::encode_utf8(b@).is_prefix_of(utf8::encode_utf8(a@)) ==> !r,
        text::below(a@, b@) == r,
{
    let x = utf8::encode_utf8(a@);
    let y = utf8::encode_utf8(b@);
    assert forall|k: int|
        0 <= k < x.len() && k < y.len() && x.take(k) == y.take(k) && x[k] != y[k] implies r == (
    #[trigger] x[k] < #[trigger] y[k]) by {
        assert forall|j: int| 0 <= j < k implies x[j] == y[j] by {
            assert(x.take(k)[j] == y.take(k)[j]);
        }
        if x[k] < y[k] {
            assert(text::parts_below(x, y, k));
        } else if text::bytes_below(x, y) {
            let l = choose|l: int| text::parts_below(x, y, l);
            if k < l {
                assert(x[k] == y[k]);
            }
        }
    }
    if x.is_prefix_of(y) {
        assert forall|j: int| 0 <= j < x.len() implies x[j] == y[j] by {
            assert(y.subrange(0, x.len() as int)[j] == y[j]);
        }
        if x.len() < y.len() {
            assert(text::parts_below(x, y, x.len() as int));
        }
    }
    if y.is_prefix_of(x) {
        assert forall|j: int| 0 <= j < y.len() implies x[j] == y[j] by {
            assert(x.subrange(0, y.len() as int)[j] == x[j]);
        }
        assert forall|l: int| !text::parts_below(x, y, l) by {}
    }
}

/// A copy of an optional text is there where the text is, and holds the same.
pub proof fn law_copy_opt(s: Option<String>, r: Option<String>)
    requires
        call_ensures(text::copy_opt, (&s,), r),
    ensures
        r is Some <==> s is Some,
        s matches Some(t) ==> (r matches Some(copied) && copied@ == t@),
{
}

/// Two texts put together are as long as both, begin with the first and end with the second.
pub proof fn law_join(a: &str, b: &str, r: String)
    requires
        call_ensures(text::join, (a, b), r),
    ensures
        r@.len() == a@.len() + b@.len(),
        r@.take(a@.len() as int) == a@,
        r@.skip(a@.len() as int) == b@,
{
}

/// The ids of a list of lines, as they come.
pub open spec fn ids_of(lines: Seq<ChatLine>) -> Seq<Seq<char>> {
    Seq::new(lines.len(), |i: int| lines[i].id)
}

/// The ids that are collected are those of the messages, every one of them and no other, each
/// before those that come after it in the order of texts, so that none stands there twice.
pub proof fn law_collect_ids(messages: Vec<ChatMessage>, r: Vec<String>)
    requires
        call_ensures(ids::collect_ids, (&messages,), r),
    ensures
        forall|id: Seq<char>| #[trigger]
            text::texts(r@).contains(id) <==> ids_of(message::lines(messages@)).contains(id),
        forall|k: int, l: int|
            0 <= k < l < r@.len() ==> text::below((#[trigger] r@[k])@, (#[trigger] r@[l])@),
        text::texts(r@).no_duplicates(),
{
    let list = text::texts(r@);
    lemma_ids(message::lines(messages@));
    assert forall|k: int, l: int| 0 <= k < l < r@.len() implies text::below(
        (#[trigger] r@[k])@,
        (#[trigger] r@[l])@,
    ) by {
        assert(text::below(list[k], list[l]));
    }
}

proof fn lemma_ids(lines: Seq<ChatLine>)
    ensures
        forall|id: Seq<char>| #[trigger]
            ids::distinct_ids(lines).contains(id) <==> ids_of(lines).contains(id),
        forall|k: int, l: int|
            0 <= k < l < ids::distinct_ids(lines).len() ==> text::below(
                #[trigger] ids::distinct_ids(lines)[k],
                #[trigger] ids::distinct_ids(lines)[l],
            ),
        ids::distinct_ids(lines).no_duplicates(),
{
    let all = ids::distinct_ids(lines);
    let plain = ids_of(lines);
    ids::law_distinct_ids_listed(lines);
    assert forall|id: Seq<char>| #[trigger] all.contains(id) <==> plain.contains(id) by {
        if all.contains(id) {
            assert(ids::has_id(lines, id));
            let i = choose|i: int| 0 <= i < lines.len() && (#[trigger] lines[i]).id == id;
            assert(plain[i] == id);
        }
        if plain.contains(id) {
            let i = choose|i: int| 0 <= i < plain.len() && plain[i] == id;
            assert(lines[i].id == id);
            assert(ids::has_id(lines, id));
        }
    }
    assert forall|k: int, l: int| 0 <= k < all.len() && 0 <= l < all.len() && k != l implies all[k]
        != all[l] by {
        if k < l {
            text::lemma_below_asymmetric(all[k], all[l]);
        } else {
            text::lemma_below_asymmetric(all[l], all[k]);
        }
    }
}

/// A new dashboard has the addresses it was given, no messages and no target; nothing is typed
/// or filtered, and its end is in sight.
pub proof fn law_new_dashboard(server_ip: String, router_ip: String, r: Dashboard)
    requires
        call_ensures(Dashboard::new, (server_ip, router_ip), r),
    ensures
        r.server_ip@ == server_ip@,
        r.router_ip@ == router_ip@,
        r.messages@.len() == 0,
        r.input_value@.len() == 0,
        r.filter_query@.len() == 0,
        r.selected_id is None,
        r.latest_id is None,
        r.is_at_bottom,
{
    assert(r.board().messages.len() == 0);
}

/// An answer goes to the target that is locked, else to the latest id, else nowhere.
pub proof fn law_active_target(d: Dashboard, r: Option<String>)
    requires
        call_ensures(Dashboard::active_target_id, (&d,), r),
    ensures
        d.selected_id matches Some(id) ==> (r matches Some(target) && target@ == id@),
        d.selected_id is None ==> (d.latest_id matches Some(id) ==> (r matches Some(target)
            && target@ == id@)),
        d.selected_id is None && d.latest_id is None ==> r is None,
        text::opt_text(r) == d.board().target(),
{
}

/// A time is needed for a text frame that came in and for typed text that is sent, which is text
/// that holds more than white space; for nothing else.
pub proof fn law_needs_timestamp(d: Dashboard, msg: Msg, r: bool)
    requires
        call_ensures(Dashboard::needs_timestamp, (&d, &msg), r),
    ensures
        msg is Received ==> r,
        msg is SendMessage ==> (r <==> exists|i: int|
            0 <= i < d.input_value@.len() && !text::is_space(#[trigger] d.input_value@[i])),
        !(msg is Received) && !(msg is SendMessage) ==> !r,
        d.board().stamps(msg@) == r,
{
}

/// Typing sets what is typed, to exactly that, and touches nothing else.
pub proof fn law_typing(d: &mut Dashboard, val: String, now: String, effects: Vec<Effect>)
    requires
        call_ensures(Dashboard::update_at, (d, Msg::InputChanged(val), now), effects),
    ensures
        final(d).board().input_value == val@,
        final(d).board().messages == old(d).board().messages,
        final(d).board().filter_query == old(d).board().filter_query,
        final(d).board().server_ip == old(d).board().server_ip,
        final(d).board().router_ip == old(d).board().router_ip,
        final(d).board().selected_id == old(d).board().selected_id,
        final(d).board().latest_id == old(d).board().latest_id,
        final(d).board().is_at_bottom == old(d).board().is_at_bottom,
        effects@.len() == 0,
{
    assert(message::demands(effects@).len() == 0);
}

/// Filtering sets the query, to exactly what was typed, and touches nothing else.
pub proof fn law_filtering(d: &mut Dashboard, val: String, now: String, effects: Vec<Effect>)
    requires
        call_ensures(Dashboard::update_at, (d, Msg::FilterChanged(val), now), effects),
    ensures
        final(d).board().filter_query == val@,
        final(d).board().messages == old(d).board().messages,
        final(d).board().input_value == old(d).board().input_value,
        final(d).board().server_ip == old(d).board().server_ip,
        final(d).board().router_ip == old(d).board().router_ip,
        final(d).board().selected_id == old(d).board().selected_id,
        final(d).board().latest_id == old(d).board().latest_id,
        final(d).board().is_at_bottom == old(d).board().is_at_bottom,
        effects@.len() == 0,
{
    assert(message::demands(effects@).len() == 0);
}

/// Selecting a message locks its id as the target, and touches nothing else.
pub proof fn law_selecting(d: &mut Dashboard, id: String, now: String, effects: Vec<Effect>)
    requires
        call_ensures(Dashboard::update_at, (d, Msg::SelectMessage(id), now), effects),
    ensures
        final(d).board().selected_id == Some(id@),
        final(d).board().messages == old(d).board().messages,
        final(d).board().input_value == old(d).board().input_value,
        final(d).board().filter_query == old(d).board().filter_query,
        final(d).board().server_ip == old(d).board().server_ip,
        final(d).board().router_ip == old(d).board().router_ip,
        final(d).board().latest_id == old(d).board().latest_id,
        final(d).board().is_at_bottom == old(d).board().is_at_bottom,
        effects@.len() == 0,
{
    assert(message::demands(effects@).len() == 0);
}

/// Clearing the selection leaves no target locked, and touches nothing else.
pub proof fn law_clearing(d: &mut Dashboard, now: String, effects: Vec<Effect>)
    requires
        call_ensures(Dashboard::update_at, (d, Msg::ClearSelection, now), effects),
    ensures
        final(d).board().selected_id is None,
        final(d).board().messages == old(d).board().messages,
        final(d).board().input_value == old(d).board().input_value,
        final(d).board().filter_query == old(d).board().filter_query,
        final(d).board().server_ip == old(d).board().server_ip,
        final(d).board().router_ip == old(d).board().router_ip,
        final(d).board().latest_id == old(d).board().latest_id,
        final(d).board().is_at_bottom == old(d).board().is_at_bottom,
        effects@.len() == 0,
{
    assert(message::demands(effects@).len() == 0);
}

/// Scrolling notes whether the end is in sight, and touches nothing else.
pub proof fn law_scrolling(d: &mut Dashboard, at_bottom: bool, now: String, effects: Vec<Effect>)
    requires
        call_ensures(Dashboard::update_at, (d, Msg::Scrolled(at_bottom), now), effects),
    ensures
        final(d).board().is_at_bottom == at_bottom,
        final(d).board().messages == old(d).board().messages,
        final(d).board().input_value == old(d).board().input_value,
        final(d).board().filter_query == old(d).board().filter_query,
        final(d).board().server_ip == old(d).board().server_ip,
        final(d).board().router_ip == old(d).board().router_ip,
        final(d).board().selected_id == old(d).board().selected_id,
        final(d).board().latest_id == old(d).board().latest_id,
        effects@.len() == 0,
{
    assert(message::demands(effects@).len() == 0);
}

/// Copying puts exactly the text on the clipboard, once, and changes nothing on the dashboard.
pub proof fn law_copying(d: &mut Dashboard, t: String, now: String, effects: Vec<Effect>)
    requires
        call_ensures(Dashboard::update_at, (d, Msg::CopyToClipboard(t), now), effects),
    ensures
        final(d).board() == old(d).board(),
        effects@.len() == 1,
        effects@[0] matches Effect::WriteClipboard(written) && written@ == t@,
{
    let asked = message::demands(effects@);
    assert(asked.len() == 1);
    assert(asked[0] == effects@[0]@);
}

/// The outcome of an update changes nothing on the dashboard. A success is passed over in
/// silence; of a failure one line is printed, which ends with the reason.
pub proof fn law_outcomes(
    d: &mut Dashboard,
    result: Result<(), String>,
    now: String,
    effects: Vec<Effect>,
)
    requires
        call_ensures(Dashboard::update_at, (d, Msg::PostResult(result), now), effects),
    ensures
        final(d).board() == old(d).board(),
        result is Ok ==> effects@.len() == 0,
        result matches Err(e) ==> effects@.len() == 1 && (effects@[0] matches Effect::Print(line)
            && line@ == "Failed background post task: "@ + e@),
{
    let asked = message::demands(effects@);
    assert(asked.len() == effects@.len());
    if result is Err {
        assert(asked.len() == 1);
        assert(asked[0] == effects@[0]@);
    }
}

/// Nuking takes every message off the dashboard and touches nothing else. It asks for one update
/// of each id that stood there, in the order of the ids: at the router of the dashboard, a nuke,
/// without a text, with a pause of a tenth of a second after it.
pub proof fn law_nuking(d: &mut Dashboard, now: String, effects: Vec<Effect>)
    requires
        call_ensures(Dashboard::update_at, (d, Msg::NukeMessages, now), effects),
    ensures
        final(d).board().messages.len() == 0,
        final(d).board().input_value == old(d).board().input_value,
        final(d).board().filter_query == old(d).board().filter_query,
        final(d).board().server_ip == old(d).board().server_ip,
        final(d).board().router_ip == old(d).board().router_ip,
        final(d).board().selected_id == old(d).board().selected_id,
        final(d).board().latest_id == old(d).board().latest_id,
        final(d).board().is_at_bottom == old(d).board().is_at_bottom,
        forall|k: int|
            0 <= k < effects@.len() ==> {
                &&& (#[trigger] effects@[k]) matches Effect::UpdateNote {
                    nuke,
                    router,
                    id,
                    text,
                    pause_ms,
                }
                &&& nuke
                &&& router@ == old(d).board().router_ip
                &&& text@.len() == 0
                &&& pause_ms == 100
            },
        forall|id: Seq<char>| #[trigger]
            asked_ids(effects@).contains(id) <==> ids_of(old(d).board().messages).contains(id),
        forall|k: int, l: int|
            0 <= k < l < effects@.len() ==> text::below(
                #[trigger] asked_ids(effects@)[k],
                #[trigger] asked_ids(effects@)[l],
            ),
        asked_ids(effects@).no_duplicates(),
{
    let all = ids::distinct_ids(old(d).board().messages);
    let asked = message::demands(effects@);
    lemma_ids(old(d).board().messages);
    assert(asked.len() == effects@.len());
    assert(asked.len() == all.len());
    assert forall|k: int| 0 <= k < effects@.len() implies {
        &&& (#[trigger] effects@[k]) matches Effect::UpdateNote { nuke, router, id, text, pause_ms }
        &&& nuke
        &&& router@ == old(d).board().router_ip
        &&& text@.len() == 0
        &&& pause_ms == 100
        &&& id@ == all[k]
    } by {
        assert(asked[k] == effects@[k]@);
    }
    assert(asked_ids(effects@) =~= all);
}

/// The ids whose notes a list of updates asks for.
pub open spec fn asked_ids(effects: Seq<Effect>) -> Seq<Seq<char>> {
    Seq::new(effects.len(), |k: int| effects[k]->id@)
}

/// Text that holds nothing but white space is not sent: the dashboard stays as it was, and
/// nothing is asked for.
pub proof fn law_sending_blank_text(d: &mut Dashboard, now: String, effects: Vec<Effect>)
    requires
        call_ensures(Dashboard::update_at, (d, Msg::SendMessage, now), effects),
        forall|i: int|
            0 <= i < old(d).board().input_value.len() ==> text::is_space(
                #[trigger] old(d).board().input_value[i],
            ),
    ensures
        final(d).board() == old(d).board(),
        effects@.len() == 0,
{
    assert(message::demands(effects@).len() == 0);
}

/// Any other text that was typed becomes the last message, unchanged, typed here, stamped with
/// the time and under the id of the target or, without one, under the unknown id. The input is
/// emptied. With a target the lock is released, and the update of its note with that text and the
/// scroll to the end are asked for; without one nothing but a line on the console is. Whatever
/// else the dashboard holds stays.
pub proof fn law_sending_text(d: &mut Dashboard, now: String, effects: Vec<Effect>, at: int)
    requires
        call_ensures(Dashboard::update_at, (d, Msg::SendMessage, now), effects),
        0 <= at < old(d).board().input_value.len(),
        !text::is_space(old(d).board().input_value[at]),
    ensures
        final(d).board().messages.len() == old(d).board().messages.len() + 1,
        final(d).board().messages.drop_last() == old(d).board().messages,
        final(d).board().messages.last().text == old(d).board().input_value,
        final(d).board().messages.last().is_mine,
        final(d).board().messages.last().timestamp == now@,
        final(d).board().input_value.len() == 0,
        final(d).board().filter_query == old(d).board().filter_query,
        final(d).board().server_ip == old(d).board().server_ip,
        final(d).board().router_ip == old(d).board().router_ip,
        final(d).board().selected_id is None,
        final(d).board().latest_id == old(d).board().latest_id,
        final(d).board().is_at_bottom == old(d).board().is_at_bottom,
        old(d).board().selected_id matches Some(id) ==> posts(
            final(d).board().messages.last().id,
            effects@,
            old(d).board().router_ip,
            id,
            old(d).board().input_value,
        ),
        old(d).board().selected_id is None ==> (old(d).board().latest_id matches Some(id) ==> posts(
            final(d).board().messages.last().id,
            effects@,
            old(d).board().router_ip,
            id,
            old(d).board().input_value,
        )),
        old(d).board().selected_id is None && old(d).board().latest_id is None ==> {
            &&& final(d).board().messages.last().id == "unknown"@
            &&& effects@.len() == 1
            &&& effects@[0] matches Effect::Print(line) && line@
                == "Cannot POST: No target ID available."@
        },
{
    let asked = message::demands(effects@);
    assert(!text::is_blank(old(d).board().input_value));
    assert(final(d).board().messages.drop_last() =~= old(d).board().messages);
    assert(asked.len() == effects@.len());
    if old(d).board().selected_id is Some || old(d).board().latest_id is Some {
        assert(asked.len() == 2);
        assert(asked[0] == effects@[0]@);
        assert(asked[1] == effects@[1]@);
    } else {
        assert(asked.len() == 1);
        assert(asked[0] == effects@[0]@);
    }
}

/// A message was put down under `line_id` and posted: that is the id `id`, and what is asked for
/// is first one update of its note at `router`, no nuke, that adds `added` without a pause, then
/// the scroll to the end, and nothing more.
pub open spec fn posts(
    line_id: Seq<char>,
    effects: Seq<Effect>,
    router: Seq<char>,
    id: Seq<char>,
    added: Seq<char>,
) -> bool {
    &&& line_id == id
    &&& effects.len() == 2
    &&& effects[0] matches Effect::UpdateNote { nuke, router: at, id: of, text, pause_ms } && !nuke
        && at@ == router && of@ == id && text@ == added && pause_ms == 0
    &&& effects[1] is SnapToEnd
}

/// A payload that comes in becomes the last message under its id, with its content unchanged and
/// the time as its stamp, and not as typed here; its id is then the latest. The selection, what is
/// typed, and all else stay as they were, so that without a lock the target is the id of the
/// payload. Only where the end was in sight is the conversation scrolled, and nothing else is
/// asked for.
pub proof fn law_receiving_a_payload(
    d: &mut Dashboard,
    frame: String,
    payload: MessagePayload,
    now: String,
    effects: Vec<Effect>,
    target: Option<String>,
)
    requires
        call_ensures(Dashboard::update_at, (d, Msg::Received(frame, Some(payload)), now), effects),
        call_ensures(Dashboard::active_target_id, (&*final(d),), target),
    ensures
        final(d).board().messages.len() == old(d).board().messages.len() + 1,
        final(d).board().messages.drop_last() == old(d).board().messages,
        final(d).board().messages.last().id == payload.id@,
        final(d).board().messages.last().text == payload.content@,
        !final(d).board().messages.last().is_mine,
        final(d).board().messages.last().timestamp == now@,
        final(d).board().latest_id == Some(payload.id@),
        final(d).board().selected_id == old(d).board().selected_id,
        final(d).board().input_value == old(d).board().input_value,
        final(d).board().filter_query == old(d).board().filter_query,
        final(d).board().server_ip == old(d).board().server_ip,
        final(d).board().router_ip == old(d).board().router_ip,
        final(d).board().is_at_bottom == old(d).board().is_at_bottom,
        old(d).selected_id is None ==> final(d).selected_id is None,
        old(d).selected_id is None ==> (target matches Some(id) && id@ == payload.id@),
        old(d).selected_id matches Some(locked) ==> (target matches Some(id) && id@ == locked@),
        old(d).is_at_bottom ==> effects@.len() == 1 && effects@[0] is SnapToEnd,
        !old(d).is_at_bottom ==> effects@.len() == 0,
{
    let asked = message::demands(effects@);
    assert(final(d).board().messages.drop_last() =~= old(d).board().messages);
    assert(asked.len() == effects@.len());
    if old(d).is_at_bottom {
        assert(asked.len() == 1);
        assert(asked[0] == effects@[0]@);
    }
}

/// A text frame that is no payload becomes the last message under the unknown id, as it came,
/// with the time as its stamp and not as typed here. The latest id, the selection, and all else
/// stay as they were, and so does the target. Only where the end was in sight is the conversation
/// scrolled, and nothing else is asked for.
pub proof fn law_receiving_a_text(
    d: &mut Dashboard,
    frame: String,
    now: String,
    effects: Vec<Effect>,
)
    requires
        call_ensures(Dashboard::update_at, (d, Msg::Received(frame, None), now), effects),
    ensures
        final(d).board().messages.len() == old(d).board().messages.len() + 1,
        final(d).board().messages.drop_last() == old(d).board().messages,
        final(d).board().messages.last().id == "unknown"@,
        final(d).board().messages.last().text == frame@,
        !final(d).board().messages.last().is_mine,
        final(d).board().messages.last().timestamp == now@,
        final(d).board().latest_id == old(d).board().latest_id,
        final(d).board().selected_id == old(d).board().selected_id,
        final(d).board().input_value == old(d).board().input_value,
        final(d).board().filter_query == old(d).board().filter_query,
        final(d).board().server_ip == old(d).board().server_ip,
        final(d).board().router_ip == old(d).board().router_ip,
        final(d).board().is_at_bottom == old(d).board().is_at_bottom,
        old(d).is_at_bottom ==> effects@.len() == 1 && effects@[0] is SnapToEnd,
        !old(d).is_at_bottom ==> effects@.len() == 0,
{
    let asked = message::demands(effects@);
    assert(final(d).board().messages.drop_last() =~= old(d).board().messages);
    assert(asked.len() == effects@.len());
    if old(d).is_at_bottom {
        assert(asked.len() == 1);
        assert(asked[0] == effects@[0]@);
    }
}

/// Whether two characters of a text are digits.
pub open spec fn digits_at(s: Seq<char>, i: int) -> bool {
    '0' <= s[i] <= '9' && '0' <= s[i + 1] <= '9'
}

/// The number that two digits of a text stand for.
pub open spec fn number_at(s: Seq<char>, i: int) -> int {
    10 * (s[i] as int - '0' as int) + (s[i + 1] as int - '0' as int)
}

/// A timestamp ends with a dash, the month, a dash, the day, a space, the hour, a colon, the
/// minute, a space, and the half of the day, each number of two digits. Before that stands a year
/// of at least four characters, the last four of them digits. The month and the hour are between
/// one and twelve, the day between one and thirty-one, the minute under sixty.
pub proof fn law_timestamp(s: Seq<char>)
    requires
        clock::is_timestamp(s),
    ensures
        s.len() >= 19,
        ({
            let end = s.skip(s.len() - 15);
            &&& end[0] == '-' && end[3] == '-' && end[6] == ' ' && end[9] == ':' && end[12] == ' '
            &&& digits_at(end, 1) && digits_at(end, 4) && digits_at(end, 7) && digits_at(end, 10)
            &&& end[13] == 'A' || end[13] == 'P'
            &&& end[14] == 'M'
            &&& 1 <= number_at(end, 1) <= 12
            &&& 1 <= number_at(end, 4) <= 31
            &&& 1 <= number_at(end, 7) <= 12
            &&& number_at(end, 10) < 60
        }),
        digits_at(s, s.len() - 19),
        digits_at(s, s.len() - 17),
{
    let year = s.take(s.len() - 15);
    assert forall|i: int| year.len() - 4 <= i < year.len() implies '0' <= #[trigger] year[i]
        <= '9' by {
        assert(clock::is_digit(year[i]));
    }
    assert(year[year.len() - 4] == s[s.len() - 19]);
    assert(year[year.len() - 3] == s[s.len() - 18]);
    assert(year[year.len() - 2] == s[s.len() - 17]);
    assert(year[year.len() - 1] == s[s.len() - 16]);
}

/// What a message does now and what it does at any given time differ at most in the stamp of the
/// message that it puts down, and what it does now is stamped with a time.
pub proof fn law_update_now(
    d: &mut Dashboard,
    e: &mut Dashboard,
    msg: Msg,
    now: String,
    effects: Vec<Effect>,
    others: Vec<Effect>,
)
    requires
        call_ensures(Dashboard::update, (d, msg), effects),
        call_ensures(Dashboard::update_at, (e, msg, now), others),
        old(d).board() == old(e).board(),
    ensures
        message::demands(effects@) == message::demands(others@),
        final(d).board().messages.len() == final(e).board().messages.len(),
        final(d).board().messages.len() <= old(d).board().messages.len() ==> final(d).board()
            == final(e).board(),
        final(d).board().messages.len() > old(d).board().messages.len() ==> {
            let mine = final(d).board().messages;
            let theirs = final(e).board().messages;
            &&& mine.drop_last() == theirs.drop_last()
            &&& mine.last().id == theirs.last().id
            &&& mine.last().text == theirs.last().text
            &&& mine.last().is_mine == theirs.last().is_mine
            &&& clock::is_timestamp(mine.last().timestamp)
        },
        final(d).board().input_value == final(e).board().input_value,
        final(d).board().filter_query == final(e).board().filter_query,
        final(d).board().server_ip == final(e).board().server_ip,
        final(d).board().router_ip == final(e).board().router_ip,
        final(d).board().selected_id == final(e).board().selected_id,
        final(d).board().latest_id == final(e).board().latest_id,
        final(d).board().is_at_bottom == final(e).board().is_at_bottom,
{
    let before = old(d).board();
    if before.stamps(msg@) {
        let stamp = choose|stamp: Seq<char>|
            clock::is_timestamp(stamp) && #[trigger] before.after(msg@, stamp) == (
                final(d).board(),
                message::demands(effects@),
            );
        assert(before.after(msg@, stamp).0 == final(d).board());
        assert(final(d).board().messages.drop_last() =~= before.messages);
        assert(final(e).board().messages.drop_last() =~= before.messages);
    } else {
        assert(before.after(msg@, now@) == (final(d).board(), message::demands(effects@)));
    }
}

/// A text passes the filter exactly where the query is empty or the text is the query with
/// something before it and something after it, either of which may be empty.
pub proof fn law_passes_filter(lowered_text: &str, lowered_query: &str, r: bool)
    requires
        call_ensures(screen::passes_filter, (lowered_text, lowered_query), r),
    ensures
        r <==> lowered_query@.len() == 0 || exists|before: Seq<char>, after: Seq<char>|
            lowered_text@ == #[trigger] (before + lowered_query@ + after),
        screen::passes(lowered_text@, lowered_query@) == r,
{
    lemma_occurs(lowered_text@, lowered_query@);
}

/// A bubble shows its message unchanged: the id, the whole text and the timestamp. What was typed
/// here stands on the right, on green; what was received on the left, on white. It is framed
/// exactly where its id is the target.
pub proof fn law_bubble(line: ChatMessage, target: Option<String>, r: Bubble)
    requires
        call_ensures(screen::bubble, (&line, &target), r),
    ensures
        r.id@ == line.id@,
        r.text@ == line.text@,
        r.timestamp@ == line.timestamp@,
        line.is_mine ==> r.side is Right && r.background.red == 217 && r.background.green == 253
            && r.background.blue == 211,
        !line.is_mine ==> r.side is Left && r.background.red == 255 && r.background.green == 255
            && r.background.blue == 255,
        target matches Some(id) ==> r.is_targeted == (id@ == line.id@),
        target is None ==> !r.is_targeted,
        screen::look(line@, text::opt_text(target)) == r@,
{
}

/// What is said of the target names the one that is locked; without a lock the latest id; without
/// either it says that there is none yet.
pub proof fn law_target_display(d: Dashboard, r: TargetDisplay)
    requires
        call_ensures(Dashboard::target_display, (&d,), r),
    ensures
        d.selected_id matches Some(id) ==> (r matches TargetDisplay::Locked(t) && t@
            == "🔒 Locked Target: "@ + id@),
        d.selected_id is None ==> (d.latest_id matches Some(id) ==> (r matches
            TargetDisplay::Automatic(t) && t@ == "🔄 Auto-Targeting Latest: "@ + id@)),
        d.selected_id is None && d.latest_id is None ==> (r matches TargetDisplay::Waiting(t) && t@
            == "Waiting for target ID..."@),
        screen::caption(d.board()) == r@,
{
}

/// A line passes a query: in lower case the query is empty or the text of the line is the query
/// with something before it and something after it, either of which may be empty.
pub open spec fn is_found(line: ChatLine, query: Seq<char>) -> bool {
    text::lowercase(query).len() == 0 || exists|before: Seq<char>, after: Seq<char>|
        text::lowercase(line.text) == #[trigger] (before + text::lowercase(query) + after)
}

/// What is shown of two conversations, one after the other, is what is shown of the first and
/// then what is shown of the second. Of a single message it is that message where the query is
/// found in it, and nothing elsewhere. So it is every message in which the query is found, as
/// often as it stands there and in the order in which it stands.
pub proof fn law_visible(a: Seq<ChatLine>, b: Seq<ChatLine>, line: ChatLine, query: Seq<char>)
    ensures
        screen::visible(Seq::empty(), query) == Seq::<ChatLine>::empty(),
        screen::visible(seq![line], query) == if is_found(line, query) {
            seq![line]
        } else {
            Seq::empty()
        },
        screen::visible(a + b, query) == screen::visible(a, query) + screen::visible(b, query),
    decreases b.len(),
{
    let pred = |line: ChatLine|
        screen::passes(text::lowercase(line.text), text::lowercase(query));
    reveal(Seq::filter);
    lemma_occurs(text::lowercase(line.text), text::lowercase(query));
    assert(Seq::<ChatLine>::empty().filter(pred) =~= Seq::<ChatLine>::empty());
    assert(seq![line].drop_last() =~= Seq::<ChatLine>::empty());
    assert(seq![line].last() == line);
    assert(seq![line] =~= Seq::<ChatLine>::empty().push(line));
    if b.len() == 0 {
        assert(a + b =~= a);
        assert(a.filter(pred) + b.filter(pred) =~= a.filter(pred));
    } else {
        let rest = b.drop_last();
        law_visible(a, rest, line, query);
        assert((a + b).drop_last() =~= a + rest);
        assert((a + b).last() == b.last());
        let shown = a.filter(pred);
        if pred(b.last()) {
            assert(shown + rest.filter(pred).push(b.last()) =~= (shown + rest.filter(pred)).push(
                b.last(),
            ));
        }
    }
}

/// Of the messages on the dashboard the ones are shown in which the query is found: `at` are
/// their positions, in ascending order. Each is shown as its bubble, unchanged, framed where its
/// id is that of the target. Under an empty query that is every message. The screen tells the
/// target, the query and what is typed as they are.
pub proof fn law_screen(
    d: Dashboard,
    r: Screen,
    target: Option<String>,
    said: TargetDisplay,
) -> (at: Seq<int>)
    requires
        call_ensures(Dashboard::view, (&d,), r),
        call_ensures(Dashboard::active_target_id, (&d,), target),
        call_ensures(Dashboard::target_display, (&d,), said),
    ensures
        at.len() == r.bubbles@.len(),
        forall|k: int, l: int| 0 <= k < l < at.len() ==> #[trigger] at[k] < #[trigger] at[l],
        forall|k: int| 0 <= k < at.len() ==> 0 <= #[trigger] at[k] < d.messages@.len(),
        forall|i: int|
            0 <= i < d.messages@.len() ==> (#[trigger] at.contains(i) <==> is_found(
                d.messages@[i]@,
                d.filter_query@,
            )),
        forall|k: int|
            0 <= k < at.len() ==> shows(#[trigger] r.bubbles@[k], d.messages@[at[k]], target),
        d.filter_query@.len() == 0 ==> r.bubbles@.len() == d.messages@.len(),
        r.target@ == said@,
        r.filter_query@ == d.filter_query@,
        r.input_value@ == d.input_value@,
{
    let all = d.board().messages;
    let at = lemma_positions(all, d.filter_query@);
    let kept = screen::visible(all, d.filter_query@);
    assert(screen::looks(r.bubbles@).len() == r.bubbles@.len());
    assert forall|i: int| 0 <= i < d.messages@.len() implies (#[trigger] at.contains(i)
        <==> is_found(d.messages@[i]@, d.filter_query@)) by {
        assert(all[i] == d.messages@[i]@);
    }
    assert forall|k: int| 0 <= k < at.len() implies shows(
        #[trigger] r.bubbles@[k],
        d.messages@[at[k]],
        target,
    ) by {
        assert(screen::looks(r.bubbles@)[k] == r.bubbles@[k]@);
        assert(kept[k] == all[at[k]]);
        assert(all[at[k]] == d.messages@[at[k]]@);
        assert(screen::shown(kept, d.board().target())[k] == screen::look(
            kept[k],
            d.board().target(),
        ));
    }
    if d.filter_query@.len() == 0 {
        assert(screen::looks(r.bubbles@) == screen::shown(all, d.board().target()));
        assert(screen::shown(all, d.board().target()).len() == all.len());
    }
    at
}

/// A bubble shows a message: its id, its whole text and its timestamp, on the side and the ground
/// of what was typed here or of what was received, framed where its id is that of the target.
pub open spec fn shows(r: Bubble, line: ChatMessage, target: Option<String>) -> bool {
    &&& r.id@ == line.id@
    &&& r.text@ == line.text@
    &&& r.timestamp@ == line.timestamp@
    &&& r.side == if line.is_mine {
        Side::Right
    } else {
        Side::Left
    }
    &&& r.background == if line.is_mine {
        Rgb { red: 217, green: 253, blue: 211 }
    } else {
        Rgb { red: 255, green: 255, blue: 255 }
    }
    &&& r.is_targeted <==> (target matches Some(id) && id@ == line.id@)
}

proof fn lemma_positions(lines: Seq<ChatLine>, query: Seq<char>) -> (at: Seq<int>)
    ensures
        at.len() == screen::visible(lines, query).len(),
        forall|k: int, l: int| 0 <= k < l < at.len() ==> #[trigger] at[k] < #[trigger] at[l],
        forall|k: int| 0 <= k < at.len() ==> 0 <= #[trigger] at[k] < lines.len(),
        forall|i: int|
            0 <= i < lines.len() ==> (#[trigger] at.contains(i) <==> is_found(lines[i], query)),
        forall|k: int|
            0 <= k < at.len() ==> #[trigger] screen::visible(lines, query)[k] == lines[at[k]],
    decreases lines.len(),
{
    let pred = |line: ChatLine|
        screen::passes(text::lowercase(line.text), text::lowercase(query));
    reveal(Seq::filter);
    if lines.len() == 0 {
        assert(screen::visible(lines, query).len() == 0);
        Seq::empty()
    } else {
        let rest = lines.drop_last();
        let last: int = lines.len() - 1;
        let before = lemma_positions(rest, query);
        lemma_occurs(text::lowercase(lines[last].text), text::lowercase(query));
        let at = if pred(lines[last]) {
            before.push(last)
        } else {
            before
        };
        assert forall|i: int| 0 <= i < lines.len() implies (#[trigger] at.contains(i) <==> is_found(
            lines[i],
            query,
        )) by {
            if i < last {
                assert(before.contains(i) <==> is_found(rest[i], query));
            }
            if before.contains(i) {
                let k = choose|k: int| 0 <= k < before.len() && before[k] == i;
                assert(at[k] == i);
            }
            if pred(lines[last]) {
                assert(at[before.len() as int] == last);
            }
            if at.contains(i) {
                let k = choose|k: int| 0 <= k < at.len() && at[k] == i;
                if k < before.len() {
                    assert(before[k] == i);
                }
            }
        }
        assert forall|k: int| 0 <= k < at.len() implies #[trigger] screen::visible(lines, query)[k]
            == lines[at[k]] by {
            if k < before.len() {
                assert(screen::visible(rest, query)[k] == rest[before[k]]);
            }
        }
        at
    }
}

/// The notes of an id without an underscore are those of the skill of that name.
pub proof fn law_address_of_a_skill(router: &str, id: &str, r: String)
    requires
        call_ensures(note::note_url, (router, id), r),
        !id@.contains('_'),
    ensures
        r@ == "http://"@ + router@ + "/api/skills/"@ + id@ + "/notes"@,
{
    text::lemma_find(id@, '_');
    let k = text::find(id@, '_') as int;
    if k < id@.len() {
        assert(id@.contains(id@[k]));
    }
}

/// The notes of an id with an underscore are those of the subproject that is named after its
/// first underscore, in the project that is named before it.
pub proof fn law_address_of_a_subproject(
    router: &str,
    id: &str,
    project: Seq<char>,
    subproject: Seq<char>,
    r: String,
)
    requires
        call_ensures(note::note_url, (router, id), r),
        id@ == project.push('_') + subproject,
        !project.contains('_'),
    ensures
        r@ == "http://"@ + router@ + "/api/projects/"@ + project + "/subprojects/"@ + subproject
            + "/notes"@,
{
    let k = project.len() as int;
    assert forall|j: int| 0 <= j < k implies id@[j] != '_' by {
        assert(project.contains(project[j]));
    }
    assert(id@[k] == '_');
    text::lemma_find_unique(id@, '_', k);
    assert(id@.take(k) =~= project);
    assert(id@.skip(k + 1) =~= subproject);
}

/// An update is the nuke or not that it was made as, goes to the address of its id at its router,
/// and adds the text that it was made with.
pub proof fn law_new_update(
    nuke: bool,
    router: &str,
    id: &str,
    new_text: String,
    r: NoteUpdate,
    url: String,
)
    requires
        call_ensures(NoteUpdate::new, (nuke, router, id, new_text), r),
        call_ensures(note::note_url, (router, id), url),
    ensures
        r.nuke == nuke,
        r.url@ == url@,
        r.new_text@ == new_text@,
{
}

/// What is said before a note is read tells its address.
pub proof fn law_announcement(u: NoteUpdate, r: String)
    requires
        call_ensures(NoteUpdate::announcement, (&u,), r),
    ensures
        r@ == "Fetching current note state from "@ + u.url@ + "..."@,
{
}

/// The note that an update posts when it is no nuke is the note that was read, then the mark, then
/// what is added, and not a character more or less; it is of the version that was read. A nuke
/// posts an empty note of that version.
pub proof fn law_posted_note(
    u: NoteUpdate,
    current: NotePayload,
    r: Result<NotePayload, String>,
)
    requires
        call_ensures(NoteUpdate::after_fetch, (&u, Ok::<NotePayload, String>(current)), r),
    ensures
        r matches Ok(next) && next.version == current.version,
        !u.nuke ==> {
            let posted = r->Ok_0.text@;
            let mark = "\n\nSYSOP\n\n"@;
            let start = current.text@.len() as int;
            let end: int = start + mark.len();
            &&& posted.len() == current.text@.len() + mark.len() + u.new_text@.len()
            &&& posted.take(start) == current.text@
            &&& posted.subrange(start, end) == mark
            &&& posted.skip(end) == u.new_text@
        },
        u.nuke ==> r->Ok_0.text@.len() == 0,
{
}

/// Where the note could not be read, the update fails for exactly that reason.
pub proof fn law_unread_note(u: NoteUpdate, e: String, r: Result<NotePayload, String>)
    requires
        call_ensures(NoteUpdate::after_fetch, (&u, Err::<NotePayload, String>(e)), r),
    ensures
        r matches Err(reason) && reason@ == e@,
{
}

/// An update succeeds exactly where the router answered with a status of two hundred and
/// something. Any other status is told by its three digits after fixed words, and a post that
/// failed is told by its own reason.
pub proof fn law_outcome_of_a_post(
    u: NoteUpdate,
    code: u16,
    answered: Result<(), String>,
    e: String,
    failed: Result<(), String>,
)
    requires
        100 <= code <= 999,
        call_ensures(NoteUpdate::after_post, (&u, Ok::<u16, String>(code)), answered),
        call_ensures(NoteUpdate::after_post, (&u, Err::<u16, String>(e)), failed),
    ensures
        answered is Ok <==> code / 100 == 2,
        answered matches Err(reason) ==> {
            let words = "Failed to update. Status: "@;
            let n = words.len() as int;
            &&& reason@.len() >= n + 4
            &&& reason@.take(n) == words
            &&& reason@[n] as int == '0' as int + code / 100
            &&& reason@[n + 1] as int == '0' as int + code / 10 % 10
            &&& reason@[n + 2] as int == '0' as int + code % 10
            &&& reason@[n + 3] == ' '
        },
        failed matches Err(reason) && reason@ == e@,
{
    if answered is Err {
        let reason = answered->Err_0@;
        let n = note::REFUSED@.len() as int;
        let status = reason.skip(n);
        assert(note::opens_with_code(status, code));
        assert(reason.take(n) =~= note::REFUSED@);
        assert(reason[n] == status[0]);
        assert(reason[n + 1] == status[1]);
        assert(reason[n + 2] == status[2]);
        assert(reason[n + 3] == status[3]);
    }
}

/// The reason of a refusal is the fixed words and then the status.
pub proof fn law_refusal(status: &str, r: String)
    requires
        call_ensures(note::refusal, (status,), r),
    ensures
        r@ == "Failed to update. Status: "@ + status@,
{
}

/// A server is reached at its host, under the port and the path of the monitor, and it is said
/// which address is tried.
pub proof fn law_socket_address(host: &str, url: String, shown: &str, notice: String)
    requires
        call_ensures(link::ws_url, (host,), url),
        call_ensures(link::connect_notice, (shown,), notice),
    ensures
        url@ == "ws://"@ + host@ + ":5656/ws"@,
        notice@ == "Attempting to connect to WS: "@ + shown@,
{
}

/// Every text frame is handed to the dashboard, exactly as it came, and nothing else is. The
/// client reads on after a frame and once connected; after everything else it waits two seconds
/// and connects again. Of what goes wrong the reason is told.
pub proof fn law_link_step(event: LinkEvent, r: LinkStep)
    requires
        call_ensures(link::link_step, (event,), r),
    ensures
        event matches LinkEvent::Text(t) ==> (r.deliver matches Some(handed) && handed@ == t@),
        !(event is Text) ==> r.deliver is None,
        event is Connected || event is Text || event is OtherFrame ==> r.next is Read,
        event is ConnectFailed || event is Closed || event is ReadFailed || event is Ended
            ==> r.next == LinkNext::ReconnectAfter(2000),
        event is Connected ==> (r.say matches Some(line) && line@
            == "Successfully connected to server."@),
        event matches LinkEvent::ConnectFailed(e) ==> (r.say matches Some(line) && line@
            == "Failed to connect to WS: "@ + e@ + ". Retrying..."@),
        event is Closed ==> (r.say matches Some(line) && line@ == "Server closed the connection."@),
        event matches LinkEvent::ReadFailed(e) ==> (r.say matches Some(line) && line@
            == "WebSocket read error: "@ + e@),
        event is Text || event is OtherFrame || event is Ended ==> r.say is None,
{
}

/// A broadcast is answered by handing exactly that text to the socket, whatever it holds.
pub proof fn law_broadcast_is_handed_on(m: String, r: RelayAction)
    requires
        call_ensures(relay::relay_step, (RelayEvent::Broadcast(Some(m)),), r),
    ensures
        r matches RelayAction::Send(handed) && handed@ == m@,
{
}

/// The service of a socket ends on a channel that gives nothing, on a send that the client did not
/// take and on a client that is gone, and on nothing else. A send that was taken and a client
/// that is there are waited out.
pub proof fn law_service_ends(event: RelayEvent, r: RelayAction)
    requires
        call_ensures(relay::relay_step, (event,), r),
    ensures
        r is Stop <==> event == RelayEvent::Broadcast(None) || event == RelayEvent::Sent(false)
            || event == RelayEvent::Heard(false),
        r is Wait <==> event == RelayEvent::Sent(true) || event == RelayEvent::Heard(true),
        relay::ends(event) <==> r is Stop,
        relay::response(event) == r@,
{
}

/// The bytes of `.zip`.
pub open spec fn zip_ending() -> Seq<u8> {
    seq![0x2eu8, 0x7au8, 0x69u8, 0x70u8]
}

/// A file name is that of an archive: one or more bytes, whatever they are, and then `.zip`.
pub open spec fn ends_in_zip(name: Seq<u8>) -> bool {
    exists|stem: Seq<u8>| stem.len() > 0 && name == #[trigger] (stem + zip_ending())
}

/// Anything but nothing, followed by `.zip`, names an archive; nothing else does, and neither
/// does the lack of a name.
pub proof fn law_is_archive(name: Option<Vec<u8>>, r: bool, stem: Seq<u8>)
    requires
        call_ensures(watch::is_archive, (&name,), r),
    ensures
        name matches Some(bytes) ==> (r <==> ends_in_zip(bytes@)),
        name is None ==> !r,
        stem.len() > 0 ==> watch::names_archive(stem + zip_ending()),
{
    if let Some(bytes) = name {
        lemma_zip(bytes@);
    }
    lemma_zip(stem + zip_ending());
}

proof fn lemma_zip(name: Seq<u8>)
    ensures
        watch::names_archive(name) <==> ends_in_zip(name),
        forall|stem: Seq<u8>|
            name == #[trigger] (stem + zip_ending()) && stem.len() > 0 ==> watch::names_archive(
                name,
            ),
{
    let n = name.len() as int;
    if watch::names_archive(name) {
        assert(name =~= name.take(n - 4) + zip_ending());
    }
    assert forall|stem: Seq<u8>|
        name == #[trigger] (stem + zip_ending()) && stem.len() > 0 implies watch::names_archive(
        name,
    ) by {
        assert(name[n - 4] == zip_ending()[0]);
        assert(name[n - 3] == zip_ending()[1]);
        assert(name[n - 2] == zip_ending()[2]);
        assert(name[n - 1] == zip_ending()[3]);
    }
}

/// The id of an archive is what its name holds before the first dot, or the whole name where it
/// holds none. A name that is no text, and the lack of a name, give the unknown id.
pub proof fn law_archive_id(name: Option<Vec<u8>>, r: String)
    requires
        call_ensures(watch::archive_id, (&name,), r),
    ensures
        name matches Some(bytes) ==> (utf8::valid_utf8(bytes@) ==> {
            let whole = utf8::decode_utf8(bytes@);
            &&& !r@.contains('.')
            &&& r@ == whole || r@.push('.').is_prefix_of(whole)
        }),
        name matches Some(bytes) ==> (!utf8::valid_utf8(bytes@) ==> r@ == "unknown"@),
        name is None ==> r@ == "unknown"@,
{
    if let Some(bytes) = name {
        if utf8::valid_utf8(bytes@) {
            let whole = utf8::decode_utf8(bytes@);
            let k = text::find(whole, '.') as int;
            text::lemma_find(whole, '.');
            if k < whole.len() {
                assert(r@.push('.') =~= whole.subrange(0, k + 1));
            } else {
                assert(r@ =~= whole);
            }
        }
    }
}

/// An archive whose name is the text `head`, a dot, and any more text has the id `head`, as long
/// as `head` holds no dot itself.
pub proof fn law_archive_id_of_a_text(name: Vec<u8>, r: String, head: Seq<char>, tail: Seq<char>)
    requires
        call_ensures(watch::archive_id, (&Some(name),), r),
        name@ == utf8::encode_utf8(head.push('.') + tail),
        !head.contains('.'),
    ensures
        r@ == head,
{
    let whole = head.push('.') + tail;
    utf8::encode_utf8_valid_utf8(whole);
    utf8::encode_utf8_decode_utf8(whole);
    let k = head.len() as int;
    assert forall|j: int| 0 <= j < k implies whole[j] != '.' by {
        assert(head.contains(head[j]));
    }
    assert(whole[k] == '.');
    text::lemma_find_unique(whole, '.', k);
    assert(whole.take(k) =~= head);
}

/// At first no text was broadcast of any archive, and so every text is news.
pub proof fn law_nothing_is_remembered_at_first(
    r: LastContents,
    path: Vec<u8>,
    content: String,
    news: bool,
)
    requires
        call_ensures(LastContents::new, (), r),
        call_ensures(LastContents::differs, (&r, &path, &content), news),
    ensures
        news,
        r@.dom() == Set::<Seq<u8>>::empty(),
{
}

/// A text is news of an archive exactly where none was broadcast of it or another one was last.
pub proof fn law_differs(m: LastContents, path: Vec<u8>, content: String, r: bool)
    requires
        call_ensures(LastContents::differs, (&m, &path, &content), r),
    ensures
        !m@.dom().contains(path@) ==> r,
        m@.dom().contains(path@) ==> (r <==> m@[path@] != content@),
{
}

/// Once a text is remembered of an archive, that text is no news of it and every other text is.
/// Of any other archive the same is news as before.
pub proof fn law_record(
    m: &mut LastContents,
    path: Vec<u8>,
    content: String,
    other: Vec<u8>,
    later: String,
    of_path: bool,
    of_other: bool,
    of_other_before: bool,
)
    requires
        call_ensures(LastContents::record, (m, path, content), ()),
        call_ensures(LastContents::differs, (&*final(m), &path, &later), of_path),
        call_ensures(LastContents::differs, (&*final(m), &other, &later), of_other),
        call_ensures(LastContents::differs, (&*old(m), &other, &later), of_other_before),
    ensures
        of_path <==> later@ != content@,
        other@ != path@ ==> of_other == of_other_before,
        final(m)@.dom().contains(path@),
        final(m)@[path@] == content@,
        forall|p: Seq<u8>|
            p != path@ ==> (#[trigger] final(m)@.dom().contains(p) <==> old(m)@.dom().contains(p)),
        forall|p: Seq<u8>|
            p != path@ && old(m)@.dom().contains(p) ==> #[trigger] final(m)@[p] == old(m)@[p],
{
}

/// What was written out is sent as it is, and the text of the payload is remembered of its
/// archive, of no other. Where nothing could be written out, nothing is sent, and what is
/// remembered stays.
pub proof fn law_encoded(
    m: &mut LastContents,
    path: Vec<u8>,
    payload: MessagePayload,
    json: Option<String>,
    r: Option<String>,
)
    requires
        call_ensures(LastContents::encoded, (m, path, payload, json), r),
    ensures
        r is Some <==> json is Some,
        json matches Some(written) ==> (r matches Some(sent) && sent@ == written@),
        json is Some ==> {
            &&& final(m)@.dom().contains(path@)
            &&& final(m)@[path@] == payload.content@
            &&& forall|p: Seq<u8>|
                p != path@ ==> (#[trigger] final(m)@.dom().contains(p) <==> old(m)@.dom().contains(
                    p,
                ))
            &&& forall|p: Seq<u8>|
                p != path@ && old(m)@.dom().contains(p) ==> #[trigger] final(m)@[p] == old(m)@[p]
        },
        json is None ==> final(m)@ == old(m)@,
{
}

/// A text that was read of an archive is broadcast unchanged, under the id of the archive,
/// exactly where the archive is called something and then `.zip` and the text is not the one that
/// was last broadcast of it. So the first text of any archive is. Of a file that could not be
/// read nothing is broadcast, nor of one that is no archive.
pub proof fn law_observe_content(
    m: LastContents,
    path: Vec<u8>,
    name: Option<Vec<u8>>,
    content: Option<String>,
    r: Option<MessagePayload>,
    id: String,
)
    requires
        call_ensures(LastContents::observe_content, (&m, &path, &name, content), r),
        call_ensures(watch::archive_id, (&name,), id),
    ensures
        r is Some <==> {
            &&& content is Some
            &&& name is Some
            &&& ends_in_zip(name->0@)
            &&& !(m@.dom().contains(path@) && m@[path@] == content->0@)
        },
        r matches Some(payload) ==> payload.content@ == content->0@ && payload.id@ == id@,
{
    if let Some(bytes) = name {
        lemma_zip(bytes@);
    }
}

/// What is broadcast of an archive is what is broadcast of the text that `zip` reads out of its
/// first member.
pub proof fn law_observe(
    m: LastContents,
    path: Vec<u8>,
    name: Option<Vec<u8>>,
    archive: &[u8],
    r: Option<MessagePayload>,
    id: String,
)
    requires
        call_ensures(LastContents::observe, (&m, &path, &name, archive), r),
        call_ensures(watch::archive_id, (&name,), id),
    ensures
        r is Some <==> {
            &&& watch::member_text(archive@, 0) is Some
            &&& name is Some
            &&& ends_in_zip(name->0@)
            &&& !(m@.dom().contains(path@) && Some(m@[path@]) == watch::member_text(archive@, 0))
        },
        r matches Some(payload) ==> Some(payload.content@) == watch::member_text(archive@, 0)
            && payload.id@ == id@,
{
    if let Some(bytes) = name {
        lemma_zip(bytes@);
    }
}

/// The first text that can be read of any file called something and then `.zip` is broadcast, as
/// it was read.
pub proof fn law_first_text_is_broadcast(
    m: LastContents,
    path: Vec<u8>,
    stem: Seq<u8>,
    name: Vec<u8>,
    content: String,
    r: Option<MessagePayload>,
)
    requires
        call_ensures(LastContents::new, (), m),
        call_ensures(
            LastContents::observe_content,
            (&m, &path, &Some(name), Some(content)),
            r,
        ),
        stem.len() > 0,
        name@ == stem + zip_ending(),
    ensures
        r matches Some(payload) && payload.content@ == content@,
{
    lemma_zip(name@);
}

/// The operations on texts, notes and the wire take anything that they can be given, but for the
/// status of an answer, which is one that HTTP can express.
pub proof fn law_nothing_is_turned_away(
    s: &str,
    t: &str,
    c: char,
    flag: bool,
    string: String,
    maybe: Option<String>,
    u: NoteUpdate,
    reply: Result<NotePayload, String>,
    status: Result<u16, String>,
    event: LinkEvent,
    happened: RelayEvent,
)
    requires
        status matches Ok(code) ==> 100 <= code <= 999,
    ensures
        call_requires(text::characters, (s,)),
        call_requires(text::is_whitespace, (c,)),
        call_requires(text::blank, (s,)),
        call_requires(text::split_once, (s, c)),
        call_requires(text::contains, (s, t)),
        call_requires(text::precedes, (s, t)),
        call_requires(text::copy_opt, (&maybe,)),
        call_requires(text::join, (s, t)),
        call_requires(screen::passes_filter, (s, t)),
        call_requires(note::note_url, (s, t)),
        call_requires(note::refusal, (s,)),
        call_requires(NoteUpdate::new, (flag, s, t, string)),
        call_requires(NoteUpdate::announcement, (&u,)),
        call_requires(NoteUpdate::after_fetch, (&u, reply)),
        call_requires(NoteUpdate::after_post, (&u, status)),
        call_requires(link::ws_url, (s,)),
        call_requires(link::connect_notice, (s,)),
        call_requires(link::link_step, (event,)),
        call_requires(relay::relay_step, (happened,)),
{
}

/// A dashboard takes any message in any state, and can always be shown.
pub proof fn law_dashboard_takes_anything(
    d: &mut Dashboard,
    msg: Msg,
    now: String,
    other: String,
    messages: Vec<ChatMessage>,
    line: ChatMessage,
    target: Option<String>,
)
    ensures
        call_requires(Dashboard::new, (now, other)),
        call_requires(Dashboard::active_target_id, (&*old(d),)),
        call_requires(Dashboard::needs_timestamp, (&*old(d), &msg)),
        call_requires(Dashboard::update_at, (d, msg, now)),
        call_requires(Dashboard::update, (d, msg)),
        call_requires(Dashboard::target_display, (&*old(d),)),
        call_requires(Dashboard::view, (&*old(d),)),
        call_requires(ids::collect_ids, (&messages,)),
        call_requires(screen::bubble, (&line, &target)),
{
}

/// A watcher takes any path, any name and any bytes.
pub proof fn law_watcher_takes_anything(
    m: &mut LastContents,
    path: Vec<u8>,
    name: Option<Vec<u8>>,
    archive: &[u8],
    content: String,
    read: Option<String>,
    payload: MessagePayload,
)
    ensures
        call_requires(watch::is_archive, (&name,)),
        call_requires(watch::archive_id, (&name,)),
        call_requires(LastContents::new, ()),
        call_requires(LastContents::differs, (&*old(m), &path, &content)),
        call_requires(LastContents::observe_content, (&*old(m), &path, &name, read)),
        call_requires(LastContents::observe, (&*old(m), &path, &name, archive)),
        call_requires(LastContents::record, (m, path, content)),
        call_requires(LastContents::encoded, (m, path, payload, read)),
{
}

} // verus!
