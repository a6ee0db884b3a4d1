//! What holds of the monitor as a whole.
use vstd::prelude::*;

use crate::clock;
use crate::dashboard::{Board, UNKNOWN_ID};
use crate::ids;
use crate::link;
use crate::link::LinkSignal;
use crate::message::{ChatLine, Demand, Note, Payload, Signal};
use crate::note;
use crate::relay;
use crate::relay::{RelayEvent, RelayMove};
use crate::screen;
use crate::screen::TargetCaption;
use crate::text;
use crate::watch;

verus! {

/// The board after a run of messages, each with the time it came at.
pub open spec fn after_all(board: Board, run: Seq<(Signal, Seq<char>)>) -> Board
    decreases run.len(),
{
    if run.len() == 0 {
        board
    } else {
        after_all(board, run.drop_last()).after(run.last().0, run.last().1).0
    }
}

/// A line as the dashboard writes it: stamped with a time, and not blank where it was typed here.
pub open spec fn is_proper(line: ChatLine) -> bool {
    &&& clock::is_timestamp(line.timestamp)
    &&& line.is_mine ==> !text::is_blank(line.text)
}

/// Every line on the board is proper.
pub open spec fn all_proper(messages: Seq<ChatLine>) -> bool {
    forall|i: int| 0 <= i < messages.len() ==> is_proper(#[trigger] messages[i])
}

/// Whatever happens, the dashboard keeps its server and its router.
pub proof fn law_addresses_are_kept(board: Board, run: Seq<(Signal, Seq<char>)>)
    ensures
        after_all(board, run).server_ip == board.server_ip,
        after_all(board, run).router_ip == board.router_ip,
    decreases run.len(),
{
    if run.len() > 0 {
        law_addresses_are_kept(board, run.drop_last());
    }
}

/// On a dashboard that started empty every line bears the time of a message, and no line that
/// was typed here is blank.
pub proof fn law_lines_are_proper(
    server_ip: Seq<char>,
    router_ip: Seq<char>,
    run: Seq<(Signal, Seq<char>)>,
)
    requires
        forall|i: int| 0 <= i < run.len() ==> clock::is_timestamp((#[trigger] run[i]).1),
    ensures
        all_proper(after_all(Board::fresh(server_ip, router_ip), run).messages),
    decreases run.len(),
{
    if run.len() > 0 {
        let rest = run.drop_last();
        assert forall|i: int| 0 <= i < rest.len() implies clock::is_timestamp(
            (#[trigger] rest[i]).1,
        ) by {
            assert(clock::is_timestamp(run[i].1));
        }
        law_lines_are_proper(server_ip, router_ip, rest);
        assert(clock::is_timestamp(run[run.len() - 1].1));
    }
}

/// Only nuking takes lines off the board. Any other message leaves the lines that stand there
/// and adds one at the end where it is stamped, none elsewhere.
pub proof fn law_history_only_grows(board: Board, signal: Signal, now: Seq<char>)
    requires
        signal != Signal::NukeMessages,
    ensures
        board.messages.is_prefix_of(board.after(signal, now).0.messages),
        board.after(signal, now).0.messages.len() == board.messages.len() + if board.stamps(
            signal,
        ) {
            1int
        } else {
            0int
        },
{
    assert(board.messages.is_prefix_of(board.messages));
}

/// A run without nuking keeps every line that stood on the board.
pub proof fn law_history_is_kept(board: Board, run: Seq<(Signal, Seq<char>)>)
    requires
        forall|i: int| 0 <= i < run.len() ==> (#[trigger] run[i]).0 != Signal::NukeMessages,
    ensures
        board.messages.is_prefix_of(after_all(board, run).messages),
    decreases run.len(),
{
    if run.len() > 0 {
        let rest = run.drop_last();
        assert forall|i: int| 0 <= i < rest.len() implies (#[trigger] rest[i]).0
            != Signal::NukeMessages by {
            assert(run[i].0 != Signal::NukeMessages);
        }
        law_history_is_kept(board, rest);
        assert(run[run.len() - 1].0 != Signal::NukeMessages);
        let mid = after_all(board, rest);
        law_history_only_grows(mid, run.last().0, run.last().1);
        let end = after_all(board, run).messages;
        assert(board.messages =~= end.subrange(0, board.messages.len() as int)) by {
            assert forall|i: int| 0 <= i < board.messages.len() implies board.messages[i]
                == #[trigger] end[i] by {
                assert(mid.messages.subrange(0, board.messages.len() as int)[i]
                    == board.messages[i]);
                assert(end.subrange(0, mid.messages.len() as int)[i] == mid.messages[i]);
            }
        }
    } else {
        assert(board.messages.is_prefix_of(board.messages));
    }
}

/// A blank text is not sent: nothing changes and nothing is asked for.
pub proof fn law_blank_is_not_sent(board: Board, now: Seq<char>)
    requires
        text::is_blank(board.input_value),
    ensures
        board.after(Signal::SendMessage, now) == (board, Seq::<Demand>::empty()),
{
}

/// Sending empties the input, so that sending again does nothing.
pub proof fn law_send_is_not_repeated(board: Board, now: Seq<char>, later: Seq<char>)
    ensures
        ({
            let sent = board.after(Signal::SendMessage, now).0;
            sent.after(Signal::SendMessage, later) == (sent, Seq::<Demand>::empty())
        }),
{
}

/// A text that is sent is the last line of the board, is posted where the target was, and
/// releases the lock: the next answer goes to the latest id. Without a target it is put on the
/// board under the unknown id, and nothing is posted.
pub proof fn law_send_goes_to_the_target(board: Board, now: Seq<char>)
    requires
        !text::is_blank(board.input_value),
    ensures
        ({
            let (sent, asked) = board.after(Signal::SendMessage, now);
            &&& sent.messages.len() > 0
            &&& sent.messages.last().text == board.input_value
            &&& sent.messages.last().is_mine
            &&& sent.target() == board.latest_id
            &&& match board.target() {
                Some(id) => {
                    &&& sent.messages.last().id == id
                    &&& asked.len() > 0
                    &&& asked[0] == Demand::UpdateNote {
                        nuke: false,
                        router: board.router_ip,
                        id,
                        text: board.input_value,
                        pause_ms: 0,
                    }
                },
                None => {
                    &&& sent.messages.last().id == UNKNOWN_ID@
                    &&& forall|i: int|
                        0 <= i < asked.len() ==> !((#[trigger] asked[i]) is UpdateNote)
                },
            }
        }),
{
}

/// Once a target is locked, no message that comes in moves it.
pub proof fn law_lock_holds(
    board: Board,
    id: Seq<char>,
    frame: Seq<char>,
    payload: Option<Payload>,
    now: Seq<char>,
)
    ensures
        ({
            let locked = board.after(Signal::SelectMessage(id), now).0;
            &&& locked.target() == Some(id)
            &&& locked.after(Signal::Received(frame, payload), now).0.target() == Some(id)
        }),
{
}

/// Clearing the selection undoes a selection, and leaves the latest id as the target.
pub proof fn law_clear_undoes_select(board: Board, id: Seq<char>, now: Seq<char>)
    ensures
        ({
            let cleared = board.after(Signal::SelectMessage(id), now).0.after(
                Signal::ClearSelection,
                now,
            ).0;
            &&& cleared.target() == board.latest_id
            &&& board.selected_id is None ==> cleared == board
        }),
{
}

/// A payload that comes in makes its id the latest one; a text that is no payload is put on the
/// board as it is, under the unknown id, and leaves the latest id alone. The conversation is
/// scrolled only where its end was in sight.
pub proof fn law_receipt(
    board: Board,
    frame: Seq<char>,
    payload: Option<Payload>,
    now: Seq<char>,
)
    ensures
        ({
            let (next, asked) = board.after(Signal::Received(frame, payload), now);
            &&& next.latest_id == match payload {
                Some(p) => Some(p.id),
                None => board.latest_id,
            }
            &&& next.messages.last() == ChatLine {
                id: match payload {
                    Some(p) => p.id,
                    None => UNKNOWN_ID@,
                },
                text: match payload {
                    Some(p) => p.content,
                    None => frame,
                },
                is_mine: false,
                timestamp: now,
            }
            &&& asked.contains(Demand::SnapToEnd) <==> board.is_at_bottom
        }),
{
    if board.is_at_bottom {
        assert(board.after(Signal::Received(frame, payload), now).1[0] == Demand::SnapToEnd);
    }
}

/// The id of the last payload that came in during a run.
pub open spec fn last_payload_id(run: Seq<(Signal, Seq<char>)>) -> Option<Seq<char>>
    decreases run.len(),
{
    if run.len() == 0 {
        None
    } else {
        match run.last().0 {
            Signal::Received(_, Some(payload)) => Some(payload.id),
            _ => last_payload_id(run.drop_last()),
        }
    }
}

/// On a dashboard that started empty the latest id is that of the last payload that came in,
/// whatever else happened.
pub proof fn law_latest_id_is_the_last_received(
    server_ip: Seq<char>,
    router_ip: Seq<char>,
    run: Seq<(Signal, Seq<char>)>,
)
    ensures
        after_all(Board::fresh(server_ip, router_ip), run).latest_id == last_payload_id(run),
    decreases run.len(),
{
    if run.len() > 0 {
        law_latest_id_is_the_last_received(server_ip, router_ip, run.drop_last());
    }
}

/// Nuking empties the board and asks, for each id that stood on it, exactly once that its note
/// be emptied. Nuking again asks for nothing.
pub proof fn law_nuke(board: Board, now: Seq<char>, later: Seq<char>)
    ensures
        ({
            let (nuked, asked) = board.after(Signal::NukeMessages, now);
            &&& nuked.messages.len() == 0
            &&& asked.no_duplicates()
            &&& forall|demand: Demand| #[trigger]
                asked.contains(demand) <==> exists|i: int|
                    0 <= i < board.messages.len() && demand == (Demand::UpdateNote {
                        nuke: true,
                        router: board.router_ip,
                        id: (#[trigger] board.messages[i]).id,
                        text: Seq::empty(),
                        pause_ms: crate::dashboard::NUKE_PAUSE_MS,
                    })
            &&& nuked.after(Signal::NukeMessages, later) == (nuked, Seq::<Demand>::empty())
        }),
{
    let (nuked, asked) = board.after(Signal::NukeMessages, now);
    let all = ids::distinct_ids(board.messages);
    ids::law_distinct_ids_listed(board.messages);
    assert forall|i: int, j: int| 0 <= i < asked.len() && 0 <= j < asked.len() && i
        != j implies asked[i] != asked[j] by {
        assert(all[i] != all[j]);
        assert(asked[i]->id == all[i]);
        assert(asked[j]->id == all[j]);
    }
    assert forall|demand: Demand| #[trigger]
        asked.contains(demand) <==> exists|i: int|
            0 <= i < board.messages.len() && demand == (Demand::UpdateNote {
                nuke: true,
                router: board.router_ip,
                id: (#[trigger] board.messages[i]).id,
                text: Seq::empty(),
                pause_ms: crate::dashboard::NUKE_PAUSE_MS,
            }) by {
        if asked.contains(demand) {
            let k = choose|k: int| 0 <= k < asked.len() && asked[k] == demand;
            assert(all.contains(all[k]));
            let i = choose|i: int|
                0 <= i < board.messages.len() && (#[trigger] board.messages[i]).id == all[k];
            assert(demand->id == board.messages[i].id);
        }
        if exists|i: int|
            0 <= i < board.messages.len() && demand == (Demand::UpdateNote {
                nuke: true,
                router: board.router_ip,
                id: (#[trigger] board.messages[i]).id,
                text: Seq::empty(),
                pause_ms: crate::dashboard::NUKE_PAUSE_MS,
            }) {
            let i = choose|i: int|
                0 <= i < board.messages.len() && demand == (Demand::UpdateNote {
                    nuke: true,
                    router: board.router_ip,
                    id: (#[trigger] board.messages[i]).id,
                    text: Seq::empty(),
                    pause_ms: crate::dashboard::NUKE_PAUSE_MS,
                });
            assert(ids::has_id(board.messages, board.messages[i].id));
            assert(all.contains(board.messages[i].id));
            let k = choose|k: int| 0 <= k < all.len() && all[k] == board.messages[i].id;
            assert(asked[k] == demand);
        }
    }
    ids::law_distinct_ids_listed(nuked.messages);
    let none = ids::distinct_ids(nuked.messages);
    if none.len() > 0 {
        assert(none.contains(none[0]));
        assert(ids::has_id(nuked.messages, none[0]));
    }
    assert(nuked.nuke_demands() =~= Seq::<Demand>::empty());
}

/// The filter hides lines and does nothing else: a line is visible exactly where it stands on
/// the board and passes, and filtering again by the same query hides nothing more.
pub proof fn law_filter(messages: Seq<ChatLine>, query: Seq<char>)
    ensures
        forall|line: ChatLine| #[trigger]
            screen::visible(messages, query).contains(line) <==> messages.contains(line)
                && screen::passes(text::lowercase(line.text), text::lowercase(query)),
        screen::visible(messages, query).len() <= messages.len(),
        screen::visible(screen::visible(messages, query), query) == screen::visible(
            messages,
            query,
        ),
    decreases messages.len(),
{
    let pred = |line: ChatLine|
        screen::passes(text::lowercase(line.text), text::lowercase(query));
    reveal(Seq::filter);
    if messages.len() > 0 {
        let rest = messages.drop_last();
        law_filter(rest, query);
        let kept = rest.filter(pred);
        let all = messages.filter(pred);
        assert(messages =~= rest.push(messages.last()));
        assert forall|line: ChatLine| #[trigger] all.contains(line) <==> messages.contains(line)
            && pred(line) by {
            assert(kept.contains(line) <==> rest.contains(line) && pred(line));
            lemma_push_contains(rest, messages.last(), line);
            if pred(messages.last()) {
                lemma_push_contains(kept, messages.last(), line);
            }
        }
        if pred(messages.last()) {
            assert(all.drop_last() =~= kept);
            assert(all.filter(pred) == kept.filter(pred).push(messages.last()));
        }
    }
}

/// `part` can be had from `whole` by leaving lines out.
pub open spec fn is_subsequence(part: Seq<ChatLine>, whole: Seq<ChatLine>) -> bool
    decreases whole.len(),
{
    if part.len() == 0 {
        true
    } else if whole.len() == 0 {
        false
    } else {
        ||| part.last() == whole.last() && is_subsequence(part.drop_last(), whole.drop_last())
        ||| is_subsequence(part, whole.drop_last())
    }
}

/// A query that contains another, both in lower case, shows a subsequence of what the other
/// shows: the lines of it that pass the longer query.
pub proof fn law_longer_query_shows_less(
    messages: Seq<ChatLine>,
    longer: Seq<char>,
    shorter: Seq<char>,
)
    requires
        text::occurs(text::lowercase(longer), text::lowercase(shorter)),
    ensures
        screen::visible(screen::visible(messages, shorter), longer) == screen::visible(
            messages,
            longer,
        ),
        is_subsequence(
            screen::visible(messages, longer),
            screen::visible(messages, shorter),
        ),
    decreases messages.len(),
{
    let few = |line: ChatLine|
        screen::passes(text::lowercase(line.text), text::lowercase(longer));
    let many = |line: ChatLine|
        screen::passes(text::lowercase(line.text), text::lowercase(shorter));
    reveal(Seq::filter);
    if messages.len() > 0 {
        let last = messages.last();
        law_longer_query_shows_less(messages.drop_last(), longer, shorter);
        if few(last) {
            lemma_passes_shorter(
                text::lowercase(last.text),
                text::lowercase(longer),
                text::lowercase(shorter),
            );
        }
        let kept = messages.drop_last().filter(many);
        if many(last) {
            assert(messages.filter(many).drop_last() =~= kept);
            if few(last) {
                assert(messages.filter(few).drop_last() =~= messages.drop_last().filter(few));
            }
        }
    }
}

proof fn lemma_passes_shorter(line: Seq<char>, longer: Seq<char>, shorter: Seq<char>)
    requires
        text::occurs(longer, shorter),
        screen::passes(line, longer),
    ensures
        screen::passes(line, shorter),
{
    let j = choose|j: int| text::occurs_at(longer, shorter, j);
    if longer.len() > 0 {
        let i = choose|i: int| text::occurs_at(line, longer, i);
        assert forall|k: int| 0 <= k < shorter.len() implies line[i + j + k] == shorter[k] by {
            assert(longer.subrange(j, j + shorter.len())[k] == shorter[k]);
            assert(line.subrange(i, i + longer.len())[j + k] == longer[j + k]);
        }
        assert(line.subrange(i + j, i + j + shorter.len()) =~= shorter);
        assert(text::occurs_at(line, shorter, i + j));
    }
}

proof fn lemma_push_contains(s: Seq<ChatLine>, last: ChatLine, line: ChatLine)
    ensures
        s.push(last).contains(line) <==> s.contains(line) || line == last,
{
    let t = s.push(last);
    if s.contains(line) {
        let i = choose|i: int| 0 <= i < s.len() && s[i] == line;
        assert(t[i] == line);
    }
    assert(t[s.len() as int] == last);
    if t.contains(line) {
        let i = choose|i: int| 0 <= i < t.len() && t[i] == line;
        if i < s.len() {
            assert(s[i] == line);
        }
    }
}

/// What is said of the target agrees with where an answer goes: there is a target unless the
/// dashboard says that it waits for one, and it is said to be locked exactly where the user
/// locked it.
pub proof fn law_caption_tells_the_target(board: Board)
    ensures
        screen::caption(board) is Waiting <==> board.target() is None,
        screen::caption(board) is Locked <==> board.selected_id is Some,
        board.target() matches Some(id) ==> screen::caption(board) == if board.selected_id is Some {
            TargetCaption::Locked("🔒 Locked Target: "@ + id)
        } else {
            TargetCaption::Automatic("🔄 Auto-Targeting Latest: "@ + id)
        },
{
}

/// An update loses nothing: the note that is posted starts with what was read, ends with what
/// was added, and is of the version that was read. A nuked note is empty.
pub proof fn law_update_loses_nothing(current: Note, added: Seq<char>)
    ensures
        current.text.is_prefix_of(note::revision(false, current, added).text),
        added.is_suffix_of(note::revision(false, current, added).text),
        note::revision(false, current, added).version == current.version,
        note::revision(true, current, added).text.len() == 0,
        note::revision(true, current, added).version == current.version,
{
    let next = note::revision(false, current, added).text;
    assert(next.subrange(0, current.text.len() as int) =~= current.text);
    assert(next.subrange(next.len() - added.len(), next.len() as int) =~= added);
}

/// Two ids without slashes whose notes have the same address are the same id.
pub proof fn law_addresses_differ(router: Seq<char>, a: Seq<char>, b: Seq<char>)
    requires
        !a.contains('/'),
        !b.contains('/'),
        note::address(router, a) == note::address(router, b),
    ensures
        a == b,
{
    reveal_strlit("http://");
    reveal_strlit("/api/projects/");
    reveal_strlit("/api/skills/");
    reveal_strlit("/subprojects/");
    reveal_strlit("/notes");
    text::lemma_find(a, '_');
    text::lemma_find(b, '_');
    let x = note::address(router, a);
    let y = note::address(router, b);
    let start: int = 7 + router.len() as int;
    let end = "/notes"@;
    match (text::cut(a, '_'), text::cut(b, '_')) {
        (Some((p, s)), Some((q, t))) => {
            let mid = "/subprojects/"@;
            let rest = x.skip(start + 14);
            assert(rest =~= p + (mid + s + end));
            assert(rest =~= q + (mid + t + end));
            assert forall|i: int| 0 <= i < p.len() implies p[i] != '/' by {
                assert(a.contains(a[i]));
            }
            assert forall|i: int| 0 <= i < q.len() implies q[i] != '/' by {
                assert(b.contains(b[i]));
            }
            text::lemma_find_unique(rest, '/', p.len() as int);
            text::lemma_find_unique(rest, '/', q.len() as int);
            assert(p =~= q) by {
                assert(rest.take(p.len() as int) =~= p);
                assert(rest.take(p.len() as int) =~= q);
            }
            let tail = rest.skip(p.len() as int);
            assert(tail =~= mid + s + end);
            assert(tail =~= mid + t + end);
            assert(s =~= t) by {
                assert(tail.subrange(13, tail.len() - 6) =~= s);
                assert(tail.subrange(13, tail.len() - 6) =~= t);
            }
            assert(a =~= p.push('_') + s);
            assert(b =~= q.push('_') + t);
        },
        (None, None) => {
            assert(x.subrange(start + 12, x.len() - 6) =~= a);
            assert(y.subrange(start + 12, y.len() - 6) =~= b);
        },
        (Some(_), None) => {
            assert(x[start + 5] == 'p');
            assert(y[start + 5] == 's');
        },
        (None, Some(_)) => {
            assert(x[start + 5] == 's');
            assert(y[start + 5] == 'p');
        },
    }
}

/// No id of an archive holds a dot.
pub proof fn law_archive_id_has_no_dot(name: Option<Seq<u8>>)
    ensures
        !watch::id_of(name).contains('.'),
{
    reveal_strlit("unknown");
    if let Some(bytes) = name {
        text::lemma_find(vstd::utf8::decode_utf8(bytes), '.');
    }
}

/// After a text of an archive was broadcast, the same text is no news and any other text is, as
/// long as the file name is that of an archive; of other paths the same is news as before.
pub proof fn law_no_news_twice(
    last: Map<Seq<u8>, Seq<char>>,
    path: Seq<u8>,
    content: Seq<char>,
    name: Option<Seq<u8>>,
    other: Seq<u8>,
    later: Seq<char>,
)
    ensures
        watch::news(last.insert(path, content), path, name, Some(content)) is None,
        later != content && (name matches Some(bytes) && watch::names_archive(bytes))
            ==> watch::news(last.insert(path, content), path, name, Some(later)) == Some(
            Payload { id: watch::id_of(name), content: later },
        ),
        other != path ==> watch::news(last.insert(path, content), other, name, Some(later))
            == watch::news(last, other, name, Some(later)),
{
}

/// One look at an archive: where it is, what it is called, what was read of it, and whether a
/// payload of it could be written out.
pub struct Sighting {
    pub path: Seq<u8>,
    pub name: Option<Seq<u8>>,
    pub content: Option<Seq<char>>,
    pub written: bool,
}

/// What a sighting sends to the clients when `last` is remembered.
pub open spec fn broadcast_of(last: Map<Seq<u8>, Seq<char>>, seen: Sighting) -> Option<Payload> {
    if seen.written {
        watch::news(last, seen.path, seen.name, seen.content)
    } else {
        None
    }
}

/// What is remembered after a run of sightings.
pub open spec fn remembered(run: Seq<Sighting>) -> Map<Seq<u8>, Seq<char>>
    decreases run.len(),
{
    if run.len() == 0 {
        Map::empty()
    } else {
        let last = remembered(run.drop_last());
        match broadcast_of(last, run.last()) {
            Some(payload) => last.insert(run.last().path, payload.content),
            None => last,
        }
    }
}

/// The texts of the archive at `path` that a run of sightings broadcasts.
pub open spec fn broadcasts_of_path(run: Seq<Sighting>, path: Seq<u8>) -> Seq<Seq<char>>
    decreases run.len(),
{
    if run.len() == 0 {
        Seq::empty()
    } else {
        let before = broadcasts_of_path(run.drop_last(), path);
        match broadcast_of(remembered(run.drop_last()), run.last()) {
            Some(payload) => if run.last().path == path {
                before.push(payload.content)
            } else {
                before
            },
            None => before,
        }
    }
}

/// The texts that were read of the archive at `path` during a run and could be written out.
pub open spec fn readings_of_path(run: Seq<Sighting>, path: Seq<u8>) -> Seq<Seq<char>>
    decreases run.len(),
{
    if run.len() == 0 {
        Seq::empty()
    } else {
        let before = readings_of_path(run.drop_last(), path);
        let seen = run.last();
        match (seen.name, seen.content) {
            (Some(name), Some(content)) => if seen.path == path && seen.written
                && watch::names_archive(name) {
                before.push(content)
            } else {
                before
            },
            _ => before,
        }
    }
}

/// A list of texts without those that equal the one before them.
pub open spec fn without_repeats(texts: Seq<Seq<char>>) -> Seq<Seq<char>>
    decreases texts.len(),
{
    if texts.len() == 0 {
        Seq::empty()
    } else {
        let before = without_repeats(texts.drop_last());
        if texts.len() > 1 && texts[texts.len() - 2] == texts.last() {
            before
        } else {
            before.push(texts.last())
        }
    }
}

/// Whatever is seen of other archives meanwhile, the texts that are broadcast of an archive are
/// those that were read of it, without repeats of the one before; the last of them is what is
/// remembered.
pub proof fn law_broadcasts_are_readings_without_repeats(run: Seq<Sighting>, path: Seq<u8>)
    ensures
        broadcasts_of_path(run, path) == without_repeats(readings_of_path(run, path)),
        remembered(run).dom().contains(path) <==> readings_of_path(run, path).len() > 0,
        readings_of_path(run, path).len() > 0 ==> remembered(run)[path] == readings_of_path(
            run,
            path,
        ).last(),
    decreases run.len(),
{
    if run.len() > 0 {
        law_broadcasts_are_readings_without_repeats(run.drop_last(), path);
        let before = readings_of_path(run.drop_last(), path);
        let now = readings_of_path(run, path);
        if now != before {
            assert(now.drop_last() =~= before);
        }
    }
}

/// No event of a run ends the service of a socket.
pub open spec fn stays_open(run: Seq<RelayEvent>) -> bool {
    forall|i: int| 0 <= i < run.len() ==> !relay::ends(#[trigger] run[i])
}

/// The texts handed to a socket during a run of events: what is done about each event, until one
/// of them ends the service.
pub open spec fn handed_on(run: Seq<RelayEvent>) -> Seq<Seq<char>>
    decreases run.len(),
{
    if run.len() == 0 {
        Seq::empty()
    } else {
        let before = handed_on(run.drop_last());
        match relay::response(run.last()) {
            RelayMove::Send(message) => if stays_open(run.drop_last()) {
                before.push(message)
            } else {
                before
            },
            _ => before,
        }
    }
}

/// The texts that the broadcast channel gave during a run of events.
pub open spec fn given(run: Seq<RelayEvent>) -> Seq<Seq<char>>
    decreases run.len(),
{
    if run.len() == 0 {
        Seq::empty()
    } else {
        match run.last() {
            RelayEvent::Broadcast(Some(message)) => given(run.drop_last()).push(message@),
            _ => given(run.drop_last()),
        }
    }
}

/// While neither side is done, the texts handed to a socket are the broadcasts, all of them and
/// in their order, whatever the client sends.
pub proof fn law_relay_hands_on_every_broadcast(run: Seq<RelayEvent>)
    requires
        stays_open(run),
    ensures
        handed_on(run) == given(run),
    decreases run.len(),
{
    if run.len() > 0 {
        let rest = run.drop_last();
        assert forall|i: int| 0 <= i < rest.len() implies !relay::ends(#[trigger] rest[i]) by {
            assert(!relay::ends(run[i]));
        }
        law_relay_hands_on_every_broadcast(rest);
        assert(!relay::ends(run[run.len() - 1]));
    }
}

/// Once either side is done, nothing more is handed to the socket.
pub proof fn law_relay_is_silent_after_its_end(run: Seq<RelayEvent>, later: RelayEvent)
    requires
        !stays_open(run),
    ensures
        !stays_open(run.push(later)),
        handed_on(run.push(later)) == handed_on(run),
{
    let i = choose|i: int| 0 <= i < run.len() && relay::ends(#[trigger] run[i]);
    assert(relay::ends(run.push(later)[i]));
    assert(run.push(later).drop_last() =~= run);
}

/// A client gives its connection up only when the connection could not be made, failed, was
/// closed or ended: no frame but the closing one makes it do so. It hands on what text frames
/// hold, and nothing else.
pub proof fn law_link_survives_frames(event: LinkSignal)
    ensures
        !link::reads_on(event) <==> event is ConnectFailed || event is Closed || event is ReadFailed
            || event is Ended,
        link::delivered(event) is Some <==> event is Text,
        link::delivered(event) is Some ==> link::reads_on(event),
{
}

/// The client reads on after every event of a run.
pub open spec fn stays_linked(run: Seq<LinkSignal>) -> bool {
    forall|i: int| 0 <= i < run.len() ==> link::reads_on(#[trigger] run[i])
}

/// The texts handed to the dashboard during a run of events on one connection: what each event
/// delivers, until the client no longer reads on.
pub open spec fn delivered_in(run: Seq<LinkSignal>) -> Seq<Seq<char>>
    decreases run.len(),
{
    if run.len() == 0 {
        Seq::empty()
    } else {
        let before = delivered_in(run.drop_last());
        match link::delivered(run.last()) {
            Some(t) => if stays_linked(run.drop_last()) {
                before.push(t)
            } else {
                before
            },
            None => before,
        }
    }
}

/// The texts of the text frames of a run.
pub open spec fn text_frames(run: Seq<LinkSignal>) -> Seq<Seq<char>>
    decreases run.len(),
{
    if run.len() == 0 {
        Seq::empty()
    } else {
        match run.last() {
            LinkSignal::Text(t) => text_frames(run.drop_last()).push(t),
            _ => text_frames(run.drop_last()),
        }
    }
}

/// `end` is the first event of a run after which the client does not read on, or the end of the
/// run where there is no such event.
pub open spec fn first_loss(run: Seq<LinkSignal>, end: int) -> bool {
    &&& 0 <= end <= run.len()
    &&& stays_linked(run.take(end))
    &&& end < run.len() ==> !link::reads_on(run[end])
}

/// Of one connection the dashboard is handed the text frames that come before the connection is
/// closed, fails or ends: all of them, unchanged and in their order, and nothing after that.
pub proof fn law_link_hands_on_every_text_frame(run: Seq<LinkSignal>, end: int)
    requires
        first_loss(run, end),
    ensures
        delivered_in(run) == text_frames(run.take(end)),
    decreases run.len(),
{
    if run.len() > 0 {
        let rest = run.drop_last();
        if end < run.len() {
            assert(rest.take(end) =~= run.take(end));
            law_link_hands_on_every_text_frame(rest, end);
            if end < rest.len() {
                assert(!link::reads_on(rest[end]));
            }
        } else {
            assert(run.take(end) =~= run);
            assert(rest.take(rest.len() as int) =~= rest);
            assert forall|i: int| 0 <= i < rest.len() implies link::reads_on(
                #[trigger] rest[i],
            ) by {
                assert(link::reads_on(run.take(end)[i]));
            }
            law_link_hands_on_every_text_frame(rest, rest.len() as int);
        }
    } else {
        assert(run.take(end) =~= run);
    }
}

/// Every run has such an event or end.
pub proof fn law_link_has_a_first_loss(run: Seq<LinkSignal>) -> (end: int)
    ensures
        first_loss(run, end),
    decreases run.len(),
{
    if run.len() == 0 {
        0
    } else {
        let rest = run.drop_last();
        let end = law_link_has_a_first_loss(rest);
        assert(rest.take(end) =~= run.take(end));
        if end == rest.len() && link::reads_on(run.last()) {
            assert(run.take(run.len() as int) =~= run);
            assert forall|i: int| 0 <= i < run.len() implies link::reads_on(#[trigger] run[i]) by {
                if i < rest.len() {
                    assert(link::reads_on(rest.take(end)[i]));
                }
            }
            run.len() as int
        } else {
            end
        }
    }
}

} // verus!
