//! The watched archives: which of them count, and what of a change is broadcast.
use vstd::prelude::*;
use vstd::utf8;

use crate::dashboard::UNKNOWN_ID;
use crate::message::{MessagePayload, Payload};
use crate::text;

verus! {

/// How long the watcher gathers events before it reports them, in milliseconds.
pub const DEBOUNCE_MS: u64 = 500;

/// How many broadcasts a slow client may fall behind.
pub const BROADCAST_CAPACITY: usize = 100;

/// Where the server listens.
pub const LISTEN_ADDRESS: &'static str = "0.0.0.0:5656";

/// The member of an archive whose text is broadcast.
pub const MEMBER_INDEX: usize = 0;

/// A file name whose extension is `zip`: something, and then `.zip`.
pub open spec fn names_archive(name: Seq<u8>) -> bool {
    let n = name.len() as int;
    &&& n > 4
    &&& name[n - 4] == 0x2e
    &&& name[n - 3] == 0x7a
    &&& name[n - 2] == 0x69
    &&& name[n - 1] == 0x70
}

/// The id of an archive: its file name up to the first dot, where the file name is a text.
pub open spec fn id_of(name: Option<Seq<u8>>) -> Seq<char> {
    match name {
        Some(bytes) => if utf8::valid_utf8(bytes) {
            let chars = utf8::decode_utf8(bytes);
            chars.take(text::find(chars, '.') as int)
        } else {
            UNKNOWN_ID@
        },
        None => UNKNOWN_ID@,
    }
}

/// The bytes of an optional file name.
pub open spec fn opt_bytes(name: Option<Vec<u8>>) -> Option<Seq<u8>> {
    match name {
        Some(bytes) => Some(bytes@),
        None => None,
    }
}

/// What `zip` reads out of the member `index` of an archive, where it can be read as a text.
pub uninterp spec fn member_text(archive: Seq<u8>, index: usize) -> Option<Seq<char>>;

/// `zip::ZipArchive::new` on the bytes of an archive, `ZipArchive::by_index` on what that gives,
/// and `std::io::read_to_string` on the member: the text of the member, or nothing where one of
/// the three fails. It is a function of the bytes and the index alone and is called
/// `member_text` here. `zip` is built to read members that are stored or deflated: one that was
/// packed by any other method, or is encrypted, cannot be read and gives nothing.
#[verifier::external_body]
fn read_member(archive: &[u8], index: usize) -> (r: Option<String>)
    ensures
        text::opt_text(r) == member_text(archive@, index),
{
    let mut opened = zip::ZipArchive::new(std::io::Cursor::new(archive)).ok()?;
    let member = opened.by_index(index).ok()?;
    std::io::read_to_string(member).ok()
}

/// Whether a file name, if there is one, has the extension `zip`.
pub fn is_archive(name: &Option<Vec<u8>>) -> (r: bool)
    ensures
        r == (opt_bytes(*name) matches Some(bytes) && names_archive(bytes)),
{
    match name {
        Some(bytes) => {
            let n: usize = bytes.len();
            n > 4 && bytes[n - 4] == 0x2e && bytes[n - 3] == 0x7a && bytes[n - 2] == 0x69
                && bytes[n - 1] == 0x70
        },
        None => false,
    }
}

/// The id of an archive.
pub fn archive_id(name: &Option<Vec<u8>>) -> (r: String)
    ensures
        r@ == id_of(opt_bytes(*name)),
{
    match name {
        Some(bytes) => match text::utf8_text(bytes.as_slice()) {
            Some(s) => match text::split_once(s, '.') {
                Some((head, _)) => head,
                None => {
                    proof {
                        text::lemma_find(s@, '.');
                        assert(s@.take(s@.len() as int) =~= s@);
                    }
                    s.to_owned()
                },
            },
            None => UNKNOWN_ID.to_owned(),
        },
        None => UNKNOWN_ID.to_owned(),
    }
}

fn same_bytes(a: &Vec<u8>, b: &Vec<u8>) -> (r: bool)
    ensures
        r == (a@ == b@),
{
    if a.len() != b.len() {
        return false;
    }
    let mut i: usize = 0;
    while i < a.len()
        invariant
            a.len() == b.len(),
            i <= a.len(),
            forall|j: int| 0 <= j < i ==> a@[j] == b@[j],
        decreases a.len() - i,
    {
        if a[i] != b[i] {
            return false;
        }
        i = i + 1;
    }
    assert(a@ =~= b@);
    true
}

struct Entry {
    path: Vec<u8>,
    content: String,
}

spec fn paths_differ(entries: Seq<Entry>) -> bool {
    forall|i: int, j: int|
        0 <= i < j < entries.len() ==> (#[trigger] entries[i]).path@ != (#[trigger] entries[j]).path@
}

spec fn holds(entries: Seq<Entry>, path: Seq<u8>, i: int) -> bool {
    0 <= i < entries.len() && entries[i].path@ == path
}

spec fn contents(entries: Seq<Entry>) -> Map<Seq<u8>, Seq<char>> {
    Map::new(
        |path: Seq<u8>| exists|i: int| holds(entries, path, i),
        |path: Seq<u8>| entries[choose|i: int| holds(entries, path, i)].content@,
    )
}

/// The text that was last broadcast of each archive, by the path of the archive.
pub struct LastContents {
    entries: Vec<Entry>,
}

impl View for LastContents {
    type V = Map<Seq<u8>, Seq<char>>;

    closed spec fn view(&self) -> Map<Seq<u8>, Seq<char>> {
        contents(self.entries@)
    }
}

/// Whether `content` is news of the archive at `path`: another text than the last one.
pub open spec fn is_news(last: Map<Seq<u8>, Seq<char>>, path: Seq<u8>, content: Seq<char>) -> bool {
    !(last.dom().contains(path) && last[path] == content)
}

/// What is to be broadcast of an archive whose member holds `content`, where it can be read.
pub open spec fn news(
    last: Map<Seq<u8>, Seq<char>>,
    path: Seq<u8>,
    name: Option<Seq<u8>>,
    content: Option<Seq<char>>,
) -> Option<Payload> {
    match (name, content) {
        (Some(bytes), Some(c)) => if names_archive(bytes) && is_news(last, path, c) {
            Some(Payload { id: id_of(name), content: c })
        } else {
            None
        },
        _ => None,
    }
}

/// The contents of an optional payload.
pub open spec fn opt_payload(payload: Option<MessagePayload>) -> Option<Payload> {
    match payload {
        Some(p) => Some(p@),
        None => None,
    }
}

impl LastContents {
    #[verifier::type_invariant]
    spec fn well_formed(self) -> bool {
        paths_differ(self.entries@)
    }

    /// Nothing was broadcast yet.
    pub fn new() -> (r: LastContents)
        ensures
            r@ == Map::<Seq<u8>, Seq<char>>::empty(),
    {
        let r = LastContents { entries: Vec::new() };
        assert(r@ =~= Map::<Seq<u8>, Seq<char>>::empty());
        r
    }

    fn position(entries: &Vec<Entry>, path: &Vec<u8>) -> (r: Option<usize>)
        requires
            paths_differ(entries@),
        ensures
            match r {
                Some(i) => holds(entries@, path@, i as int) && contents(entries@).dom().contains(
                    path@,
                ) && contents(entries@)[path@] == entries@[i as int].content@,
                None => forall|i: int| !holds(entries@, path@, i),
            },
            r is None ==> !contents(entries@).dom().contains(path@),
    {
        let mut i: usize = 0;
        while i < entries.len()
            invariant
                paths_differ(entries@),
                i <= entries.len(),
                forall|j: int| 0 <= j < i ==> !holds(entries@, path@, j),
            decreases entries.len() - i,
        {
            if same_bytes(&entries[i].path, path) {
                assert(holds(entries@, path@, i as int));
                return Some(i);
            }
            i = i + 1;
        }
        None
    }

    /// Whether `content` is news of the archive at `path`.
    pub fn differs(&self, path: &Vec<u8>, content: &String) -> (r: bool)
        ensures
            r == is_news(self@, path@, content@),
    {
        proof {
            use_type_invariant(self);
        }
        match LastContents::position(&self.entries, path) {
            Some(i) => self.entries[i].content != *content,
            None => true,
        }
    }

    /// What is to be broadcast of the archive at `path` with this file name, whose member was
    /// read as `content`, if it could be read.
    pub fn observe_content(
        &self,
        path: &Vec<u8>,
        name: &Option<Vec<u8>>,
        content: Option<String>,
    ) -> (r: Option<MessagePayload>)
        ensures
            opt_payload(r) == news(self@, path@, opt_bytes(*name), text::opt_text(content)),
    {
        if !is_archive(name) {
            return None;
        }
        match content {
            Some(current_content) => if self.differs(path, &current_content) {
                Some(MessagePayload { id: archive_id(name), content: current_content })
            } else {
                None
            },
            None => None,
        }
    }

    /// What is to be broadcast of the archive at `path` with this file name and these bytes.
    pub fn observe(&self, path: &Vec<u8>, name: &Option<Vec<u8>>, archive: &[u8]) -> (r: Option<
        MessagePayload,
    >)
        ensures
            opt_payload(r) == news(
                self@,
                path@,
                opt_bytes(*name),
                member_text(archive@, MEMBER_INDEX),
            ),
    {
        if !is_archive(name) {
            return None;
        }
        let content = read_member(archive, MEMBER_INDEX);
        self.observe_content(path, name, content)
    }

    /// Remembers `content` as the last text of the archive at `path`.
    pub fn record(&mut self, path: Vec<u8>, content: String)
        ensures
            final(self)@ == old(self)@.insert(path@, content@),
    {
        proof {
            use_type_invariant(&*self);
        }
        let mut entries: Vec<Entry> = Vec::new();
        std::mem::swap(&mut entries, &mut self.entries);
        let ghost before = entries@;
        match LastContents::position(&entries, &path) {
            Some(i) => {
                entries.set(i, Entry { path, content });
                proof {
                    lemma_update(before, i as int, entries@, path@, content@);
                }
            },
            None => {
                entries.push(Entry { path, content });
                proof {
                    lemma_push(before, entries@, path@, content@);
                }
            },
        }
        self.entries = entries;
    }

    /// What is sent to the clients once a payload of the archive at `path` was written out as
    /// `json`. Where it could not be written out, nothing is sent and nothing is remembered.
    pub fn encoded(&mut self, path: Vec<u8>, payload: MessagePayload, json: Option<String>) -> (r:
        Option<String>)
        ensures
            text::opt_text(r) == text::opt_text(json),
            final(self)@ == if json is Some {
                old(self)@.insert(path@, payload@.content)
            } else {
                old(self)@
            },
    {
        if json.is_some() {
            self.record(path, payload.content);
        }
        json
    }
}

proof fn lemma_lookup(entries: Seq<Entry>, path: Seq<u8>, i: int)
    requires
        paths_differ(entries),
        holds(entries, path, i),
    ensures
        contents(entries).dom().contains(path),
        contents(entries)[path] == entries[i].content@,
{
}

proof fn lemma_update(
    before: Seq<Entry>,
    at: int,
    after: Seq<Entry>,
    path: Seq<u8>,
    content: Seq<char>,
)
    requires
        paths_differ(before),
        holds(before, path, at),
        after.len() == before.len(),
        after[at].path@ == path,
        after[at].content@ == content,
        forall|i: int| 0 <= i < before.len() && i != at ==> after[i] == before[i],
    ensures
        paths_differ(after),
        contents(after) == contents(before).insert(path, content),
{
    assert forall|i: int, j: int| 0 <= i < j < after.len() implies (#[trigger] after[i]).path@ != (
    #[trigger] after[j]).path@ by {
        assert(before[i].path@ != before[j].path@);
    }
    let wanted = contents(before).insert(path, content);
    assert forall|p: Seq<u8>|
        #![trigger contents(after).dom().contains(p)]
        #![trigger contents(after)[p]]
        contents(after).dom().contains(p) == wanted.dom().contains(p) && (wanted.dom().contains(p)
            ==> contents(after)[p] == wanted[p]) by {
        if exists|i: int| holds(before, p, i) {
            let i = choose|i: int| holds(before, p, i);
            assert(holds(after, p, i));
            lemma_lookup(after, p, i);
            lemma_lookup(before, p, i);
        }
        if exists|i: int| holds(after, p, i) {
            let i = choose|i: int| holds(after, p, i);
            assert(holds(before, p, i));
        }
        assert(holds(after, path, at));
    }
    assert(contents(after).dom() =~= wanted.dom());
    assert(contents(after) =~= wanted);
}

proof fn lemma_push(before: Seq<Entry>, after: Seq<Entry>, path: Seq<u8>, content: Seq<char>)
    requires
        paths_differ(before),
        forall|i: int| !holds(before, path, i),
        after.len() == before.len() + 1,
        after.last().path@ == path,
        after.last().content@ == content,
        forall|i: int| 0 <= i < before.len() ==> after[i] == before[i],
    ensures
        paths_differ(after),
        contents(after) == contents(before).insert(path, content),
{
    let at = before.len() as int;
    assert forall|i: int, j: int| 0 <= i < j < after.len() implies (#[trigger] after[i]).path@ != (
    #[trigger] after[j]).path@ by {
        assert(!holds(before, path, i));
        if j < at {
            assert(before[i].path@ != before[j].path@);
        }
    }
    let wanted = contents(before).insert(path, content);
    assert(holds(after, path, at));
    lemma_lookup(after, path, at);
    assert forall|p: Seq<u8>|
        #![trigger contents(after).dom().contains(p)]
        #![trigger contents(after)[p]]
        contents(after).dom().contains(p) == wanted.dom().contains(p) && (wanted.dom().contains(p)
            ==> contents(after)[p] == wanted[p]) by {
        if exists|i: int| holds(before, p, i) {
            let i = choose|i: int| holds(before, p, i);
            assert(holds(after, p, i));
            lemma_lookup(after, p, i);
            lemma_lookup(before, p, i);
        }
        if exists|i: int| holds(after, p, i) {
            let i = choose|i: int| holds(after, p, i);
            if i < at {
                assert(holds(before, p, i));
            }
        }
    }
    assert(contents(after).dom() =~= wanted.dom());
    assert(contents(after) =~= wanted);
}

} // verus!
