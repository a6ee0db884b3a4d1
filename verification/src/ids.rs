//! The distinct ids of a conversation, in order.
use vstd::prelude::*;

use crate::message;
use crate::message::{ChatLine, ChatMessage};
use crate::text;

verus! {

/// Each string is below the ones after it.
pub open spec fn ascending(ids: Seq<Seq<char>>) -> bool {
    forall|i: int, j: int|
        0 <= i < j < ids.len() ==> text::below(#[trigger] ids[i], #[trigger] ids[j])
}

/// Some message has the id `id`.
pub open spec fn has_id(messages: Seq<ChatLine>, id: Seq<char>) -> bool {
    exists|i: int| 0 <= i < messages.len() && (#[trigger] messages[i]).id == id
}

/// `ids` holds the ids of the messages, each of them once, in ascending order.
pub open spec fn lists_ids(messages: Seq<ChatLine>, ids: Seq<Seq<char>>) -> bool {
    &&& ascending(ids)
    &&& forall|id: Seq<char>| #[trigger] ids.contains(id) <==> has_id(messages, id)
}

/// The ids of the messages, each of them once, in ascending order.
pub open spec fn distinct_ids(messages: Seq<ChatLine>) -> Seq<Seq<char>> {
    choose|ids: Seq<Seq<char>>| lists_ids(messages, ids)
}

/// Two ascending lists with the same members are the same list.
pub proof fn lemma_ascending_unique(a: Seq<Seq<char>>, b: Seq<Seq<char>>)
    requires
        ascending(a),
        ascending(b),
        forall|x: Seq<char>| #[trigger] a.contains(x) <==> b.contains(x),
    ensures
        a == b,
    decreases a.len(),
{
    if a.len() == 0 {
        if b.len() > 0 {
            assert(b.contains(b[0]));
            assert(a.contains(b[0]));
        }
        assert(a =~= b);
    } else {
        assert(a.contains(a.last()));
        assert(b.contains(a.last()));
        assert(b.contains(b.last()));
        assert(a.contains(b.last()));
        let i = choose|i: int| 0 <= i < a.len() && a[i] == b.last();
        let j = choose|j: int| 0 <= j < b.len() && b[j] == a.last();
        if a.last() != b.last() {
            assert(text::below(a[i], a[a.len() - 1]));
            assert(text::below(b[j], b[b.len() - 1]));
            text::lemma_below_asymmetric(a.last(), b.last());
        }
        let a0 = a.drop_last();
        let b0 = b.drop_last();
        assert forall|x: Seq<char>| #[trigger] a0.contains(x) implies b0.contains(x) by {
            lemma_member_of_rest(a, b, x);
        }
        assert forall|x: Seq<char>| b0.contains(x) implies #[trigger] a0.contains(x) by {
            lemma_member_of_rest(b, a, x);
        }
        lemma_ascending_unique(a0, b0);
        assert(a =~= a0.push(a.last()));
        assert(b =~= b0.push(b.last()));
    }
}

proof fn lemma_member_of_rest(a: Seq<Seq<char>>, b: Seq<Seq<char>>, x: Seq<char>)
    requires
        ascending(a),
        a.len() > 0,
        b.len() > 0,
        a.last() == b.last(),
        forall|x: Seq<char>| #[trigger] a.contains(x) <==> b.contains(x),
        a.drop_last().contains(x),
    ensures
        b.drop_last().contains(x),
{
    let i = choose|i: int| 0 <= i < a.drop_last().len() && a.drop_last()[i] == x;
    assert(a[i] == x);
    assert(text::below(a[i], a[a.len() - 1]));
    text::lemma_below_asymmetric(x, a.last());
    assert(a.contains(x));
    assert(b.contains(x));
    let j = choose|j: int| 0 <= j < b.len() && b[j] == x;
    assert(b.drop_last()[j] == x);
}

/// The list that `lists_ids` describes is the one that `distinct_ids` picks.
pub proof fn lemma_distinct_ids(messages: Seq<ChatLine>, ids: Seq<Seq<char>>)
    requires
        lists_ids(messages, ids),
    ensures
        ids == distinct_ids(messages),
{
    let picked = distinct_ids(messages);
    assert(lists_ids(messages, picked));
    assert forall|x: Seq<char>| #[trigger] ids.contains(x) <==> picked.contains(x) by {
        assert(ids.contains(x) <==> has_id(messages, x));
        assert(picked.contains(x) <==> has_id(messages, x));
    }
    lemma_ascending_unique(ids, picked);
}

proof fn lemma_insert(ids: Seq<Seq<char>>, at: int, id: Seq<char>)
    requires
        ascending(ids),
        0 <= at <= ids.len(),
        forall|j: int| 0 <= j < at ==> text::below(#[trigger] ids[j], id),
        at < ids.len() ==> !text::below(ids[at], id) && ids[at] != id,
    ensures
        ascending(ids.insert(at, id)),
        forall|x: Seq<char>| #[trigger]
            ids.insert(at, id).contains(x) <==> ids.contains(x) || x == id,
{
    let r = ids.insert(at, id);
    assert forall|j: int| at <= j < ids.len() implies text::below(id, #[trigger] ids[j]) by {
        text::lemma_below_total(ids[at], id);
        if j > at {
            assert(text::below(ids[at], ids[j]));
            text::lemma_below_transitive(id, ids[at], ids[j]);
        }
    }
    assert forall|i: int, j: int| 0 <= i < j < r.len() implies text::below(
        #[trigger] r[i],
        #[trigger] r[j],
    ) by {
        let i0 = if i < at { i } else { i - 1 };
        let j0 = if j < at { j } else { j - 1 };
        if i == at {
            assert(r[j] == ids[j0]);
        } else if j == at {
            assert(r[i] == ids[i0]);
        } else {
            assert(r[i] == ids[i0] && r[j] == ids[j0]);
        }
    }
    assert forall|x: Seq<char>| #[trigger] r.contains(x) <==> ids.contains(x) || x == id by {
        if ids.contains(x) {
            let i = choose|i: int| 0 <= i < ids.len() && ids[i] == x;
            assert(r[if i < at { i } else { i + 1 }] == x);
        }
        assert(r[at] == id);
        if r.contains(x) {
            let i = choose|i: int| 0 <= i < r.len() && r[i] == x;
            if i != at {
                assert(ids[if i < at { i } else { i - 1 }] == x);
            }
        }
    }
}

proof fn lemma_place(ids: Seq<Seq<char>>, id: Seq<char>, k: int) -> (at: int)
    requires
        0 <= k <= ids.len(),
        forall|j: int| 0 <= j < k ==> text::below(#[trigger] ids[j], id),
    ensures
        k <= at <= ids.len(),
        forall|j: int| 0 <= j < at ==> text::below(#[trigger] ids[j], id),
        at < ids.len() ==> !text::below(ids[at], id),
    decreases ids.len() - k,
{
    if k < ids.len() && text::below(ids[k], id) {
        lemma_place(ids, id, k + 1)
    } else {
        k
    }
}

proof fn lemma_has_id_last(messages: Seq<ChatLine>, id: Seq<char>)
    requires
        messages.len() > 0,
    ensures
        has_id(messages, id) <==> has_id(messages.drop_last(), id) || id == messages.last().id,
{
    let rest = messages.drop_last();
    if has_id(rest, id) {
        let i = choose|i: int| 0 <= i < rest.len() && (#[trigger] rest[i]).id == id;
        assert(messages[i].id == id);
    }
    if has_id(messages, id) {
        let i = choose|i: int| 0 <= i < messages.len() && (#[trigger] messages[i]).id == id;
        if i < rest.len() {
            assert(rest[i].id == id);
        }
    }
}

/// Every conversation has such a list: `distinct_ids` holds the ids of the messages, each of
/// them once, in ascending order.
pub proof fn law_distinct_ids_listed(messages: Seq<ChatLine>)
    ensures
        lists_ids(messages, distinct_ids(messages)),
        distinct_ids(messages).no_duplicates(),
    decreases messages.len(),
{
    if messages.len() == 0 {
        assert(lists_ids(messages, Seq::<Seq<char>>::empty()));
    } else {
        let rest = messages.drop_last();
        law_distinct_ids_listed(rest);
        let ids = distinct_ids(rest);
        let id = messages.last().id;
        let at = lemma_place(ids, id, 0);
        let all = if at < ids.len() && ids[at] == id {
            ids
        } else {
            lemma_insert(ids, at, id);
            ids.insert(at, id)
        };
        assert forall|x: Seq<char>| #[trigger] all.contains(x) <==> has_id(messages, x) by {
            lemma_has_id_last(messages, x);
            assert(ids.contains(x) <==> has_id(rest, x));
        }
        assert(lists_ids(messages, all));
    }
    let ids = distinct_ids(messages);
    assert forall|i: int, j: int| 0 <= i < ids.len() && 0 <= j < ids.len() && i != j implies ids[i]
        != ids[j] by {
        if i < j {
            text::lemma_below_asymmetric(ids[i], ids[j]);
        } else {
            text::lemma_below_asymmetric(ids[j], ids[i]);
        }
    }
}

/// Puts `id` into its place in an ascending list, unless it is there.
fn insert_id(ids: &mut Vec<String>, id: &String)
    requires
        ascending(text::texts(old(ids)@)),
    ensures
        ascending(text::texts(final(ids)@)),
        forall|x: Seq<char>| #[trigger]
            text::texts(final(ids)@).contains(x) <==> text::texts(old(ids)@).contains(x) || x
                == id@,
{
    let mut at: usize = 0;
    while at < ids.len() && text::precedes(ids[at].as_str(), id.as_str())
        invariant
            *ids == *old(ids),
            at <= ids.len(),
            forall|j: int| 0 <= j < at ==> text::below(#[trigger] text::texts(ids@)[j], id@),
        decreases ids.len() - at,
    {
        at = at + 1;
    }
    let ghost before = text::texts(ids@);
    if at < ids.len() && ids[at] == *id {
        assert(before[at as int] == id@);
    } else {
        ids.insert(at, id.clone());
        proof {
            assert(at < before.len() ==> before[at as int] == old(ids)@[at as int]@);
            lemma_insert(before, at as int, id@);
            assert(text::texts(ids@) =~= before.insert(at as int, id@));
        }
    }
}

/// The ids of the messages, each of them once, in ascending order.
pub fn collect_ids(messages: &Vec<ChatMessage>) -> (ids: Vec<String>)
    ensures
        lists_ids(message::lines(messages@), text::texts(ids@)),
        text::texts(ids@) == distinct_ids(message::lines(messages@)),
{
    let mut ids: Vec<String> = Vec::new();
    let mut n: usize = 0;
    let ghost all = message::lines(messages@);
    assert(text::texts(ids@) =~= Seq::<Seq<char>>::empty());
    while n < messages.len()
        invariant
            n <= messages.len(),
            all == message::lines(messages@),
            lists_ids(all.take(n as int), text::texts(ids@)),
        decreases messages.len() - n,
    {
        let ghost before = text::texts(ids@);
        insert_id(&mut ids, &messages[n].id);
        proof {
            let id = messages[n as int].id@;
            let seen = all.take(n as int);
            let now = all.take(n + 1);
            assert(now[n as int].id == id);
            assert forall|x: Seq<char>| #[trigger] text::texts(ids@).contains(x) <==> has_id(
                now,
                x,
            ) by {
                assert(before.contains(x) <==> has_id(seen, x));
                if has_id(seen, x) {
                    let i = choose|i: int| 0 <= i < seen.len() && (#[trigger] seen[i]).id == x;
                    assert(now[i].id == x);
                }
                if has_id(now, x) {
                    let i = choose|i: int| 0 <= i < now.len() && (#[trigger] now[i]).id == x;
                    if i < n {
                        assert(seen[i].id == x);
                    }
                }
            }
        }
        n = n + 1;
    }
    proof {
        assert(all.take(n as int) =~= all);
        lemma_distinct_ids(all, text::texts(ids@));
    }
    ids
}

} // verus!
