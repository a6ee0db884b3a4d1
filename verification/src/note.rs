//! Notes at the router: where they are, and how one is read, extended or emptied.
use vstd::prelude::*;

use crate::message::{Note, NotePayload};
use crate::text;

verus! {

/// Stands between what a note held and what is added to it.
pub const SYSOP_MARK: &'static str = "\n\nSYSOP\n\n";

/// Said when a note was updated.
pub const UPDATED: &'static str = "Success! Note updated.";

/// Said, with the status, when the router refuses an update.
pub const REFUSED: &'static str = "Failed to update. Status: ";

/// The address of the notes of `id`: of a subproject where `id` holds an underscore, which then
/// parts project and subproject at its first occurrence, else of a skill.
pub open spec fn address(router: Seq<char>, id: Seq<char>) -> Seq<char> {
    match text::cut(id, '_') {
        Some((project, subproject)) => "http://"@ + router + "/api/projects/"@ + project
            + "/subprojects/"@ + subproject + "/notes"@,
        None => "http://"@ + router + "/api/skills/"@ + id + "/notes"@,
    }
}

/// The note that replaces `current`: empty where it is nuked, else `current` with `added` at its
/// end; of the version that was read.
pub open spec fn revision(nuke: bool, current: Note, added: Seq<char>) -> Note {
    Note {
        text: if nuke {
            Seq::empty()
        } else {
            current.text + SYSOP_MARK@ + added
        },
        version: current.version,
    }
}

/// The status codes of HTTP that say that a request succeeded.
pub open spec fn succeeded(code: u16) -> bool {
    200 <= code < 300
}

/// The status codes that HTTP can express.
pub open spec fn is_status(code: u16) -> bool {
    100 <= code <= 999
}

/// `s` begins with the three digits of a status code and a space.
pub open spec fn opens_with_code(s: Seq<char>, code: u16) -> bool {
    &&& s.len() >= 4
    &&& s[0] as int == '0' as int + code / 100
    &&& s[1] as int == '0' as int + code / 10 % 10
    &&& s[2] as int == '0' as int + code % 10
    &&& s[3] == ' '
}

/// How `reqwest::StatusCode` writes a status code out.
pub uninterp spec fn status_text(code: u16) -> Seq<char>;

/// The `Display` of `reqwest::StatusCode`, whose result is a function of the code alone and is
/// called `status_text` here: the three digits of the code, a space, and a phrase.
#[verifier::external_body]
fn write_status(code: u16) -> (r: String)
    requires
        is_status(code),
    ensures
        r@ == status_text(code),
        opens_with_code(r@, code),
{
    reqwest::StatusCode::from_u16(code).unwrap().to_string()
}

/// The address of the notes of `id`.
pub fn note_url(router: &str, id: &str) -> (r: String)
    ensures
        r@ == address(router@, id@),
{
    let mut r = text::join("http://", router);
    match text::split_once(id, '_') {
        Some((project, subproject)) => {
            r.append("/api/projects/");
            r.append(project.as_str());
            r.append("/subprojects/");
            r.append(subproject.as_str());
        },
        None => {
            r.append("/api/skills/");
            r.append(id);
        },
    }
    r.append("/notes");
    r
}

/// The update of one note: it is read, and what is made of it is posted back.
pub struct NoteUpdate {
    pub nuke: bool,
    /// Where the note is read and posted.
    pub url: String,
    pub new_text: String,
}

impl NoteUpdate {
    /// The update that adds `new_text` to the note of `id`, or that empties the note.
    pub fn new(nuke: bool, router: &str, id: &str, new_text: String) -> (r: NoteUpdate)
        ensures
            r.nuke == nuke,
            r.url@ == address(router@, id@),
            r.new_text@ == new_text@,
    {
        NoteUpdate { nuke, url: note_url(router, id), new_text }
    }

    /// What is said before the note is read.
    pub fn announcement(&self) -> (r: String)
        ensures
            r@ == "Fetching current note state from "@ + self.url@ + "..."@,
    {
        let mut r = text::join("Fetching current note state from ", self.url.as_str());
        r.append("...");
        r
    }

    /// What is posted once the note was read; where it could not be read, the update fails for
    /// the reason given and nothing is posted.
    pub fn after_fetch(&self, reply: Result<NotePayload, String>) -> (r: Result<
        NotePayload,
        String,
    >)
        ensures
            match reply {
                Ok(current) => r matches Ok(next) && next@ == revision(
                    self.nuke,
                    current@,
                    self.new_text@,
                ),
                Err(e) => r matches Err(reason) && reason@ == e@,
            },
    {
        match reply {
            Ok(current) => {
                let mut input_sysop = String::new();
                if !self.nuke {
                    input_sysop = text::join(current.text.as_str(), SYSOP_MARK);
                    input_sysop.append(self.new_text.as_str());
                }
                Ok(NotePayload { text: input_sysop, version: current.version })
            },
            Err(e) => Err(e),
        }
    }

    /// How the update ended once the router answered the post with a status code, or the post
    /// failed for the reason given. A refusal tells the code.
    pub fn after_post(&self, reply: Result<u16, String>) -> (r: Result<(), String>)
        requires
            reply matches Ok(code) ==> is_status(code),
        ensures
            match reply {
                Ok(code) => if succeeded(code) {
                    r is Ok
                } else {
                    r matches Err(reason) && reason@ == REFUSED@ + status_text(code)
                        && opens_with_code(reason@.skip(REFUSED@.len() as int), code)
                },
                Err(e) => r matches Err(reason) && reason@ == e@,
            },
    {
        match reply {
            Ok(code) => {
                if 200 <= code && code < 300 {
                    Ok(())
                } else {
                    let status = write_status(code);
                    let reason = refusal(status.as_str());
                    assert(reason@.skip(REFUSED@.len() as int) =~= status@);
                    Err(reason)
                }
            },
            Err(e) => Err(e),
        }
    }
}

/// The reason given where the router refuses an update with this status.
pub fn refusal(status: &str) -> (r: String)
    ensures
        r@ == REFUSED@ + status@,
{
    text::join(REFUSED, status)
}

} // verus!
