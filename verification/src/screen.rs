//! What the dashboard shows: the messages that pass the filter, and the target of an answer.
use vstd::prelude::*;

use crate::dashboard::{Board, Dashboard};
use crate::message;
use crate::message::{ChatLine, ChatMessage};
use crate::text;

verus! {

/// A colour by its red, green and blue parts.
#[derive(Debug, Clone, Copy, PartialEq, Eq, Structural)]
pub struct Rgb {
    pub red: u8,
    pub green: u8,
    pub blue: u8,
}

/// The side of the conversation that a bubble stands on.
#[derive(Debug, Clone, Copy, PartialEq, Eq, Structural)]
pub enum Side {
    Left,
    Right,
}

/// One message as it is shown. Copying it copies `text`; targeting it selects `id`.
#[derive(Debug)]
pub struct Bubble {
    pub id: String,
    pub text: String,
    pub timestamp: String,
    pub side: Side,
    pub background: Rgb,
    /// Whether an answer would go to the id of this message: it is framed.
    pub is_targeted: bool,
}

/// The contents of a `Bubble`.
pub struct BubbleLook {
    pub id: Seq<char>,
    pub text: Seq<char>,
    pub timestamp: Seq<char>,
    pub side: Side,
    pub background: Rgb,
    pub is_targeted: bool,
}

impl View for Bubble {
    type V = BubbleLook;

    open spec fn view(&self) -> BubbleLook {
        BubbleLook {
            id: self.id@,
            text: self.text@,
            timestamp: self.timestamp@,
            side: self.side,
            background: self.background,
            is_targeted: self.is_targeted,
        }
    }
}

/// The contents of a list of bubbles.
pub open spec fn looks(bubbles: Seq<Bubble>) -> Seq<BubbleLook> {
    Seq::new(bubbles.len(), |i: int| bubbles[i]@)
}

/// What is said of the target of an answer.
#[derive(Debug)]
pub enum TargetDisplay {
    /// The user locked a target, and can clear it.
    Locked(String),
    /// The target is the latest id.
    Automatic(String),
    /// There is no target yet.
    Waiting(String),
}

/// The contents of a `TargetDisplay`.
pub enum TargetCaption {
    Locked(Seq<char>),
    Automatic(Seq<char>),
    Waiting(Seq<char>),
}

impl View for TargetDisplay {
    type V = TargetCaption;

    open spec fn view(&self) -> TargetCaption {
        match *self {
            TargetDisplay::Locked(t) => TargetCaption::Locked(t@),
            TargetDisplay::Automatic(t) => TargetCaption::Automatic(t@),
            TargetDisplay::Waiting(t) => TargetCaption::Waiting(t@),
        }
    }
}

/// All that the dashboard shows.
#[derive(Debug)]
pub struct Screen {
    pub bubbles: Vec<Bubble>,
    pub target: TargetDisplay,
    pub filter_query: String,
    pub input_value: String,
}

/// A text passes the filter: the query is empty or stands in the text, both in lower case.
pub open spec fn passes(lowered_text: Seq<char>, lowered_query: Seq<char>) -> bool {
    lowered_query.len() == 0 || text::occurs(lowered_text, lowered_query)
}

/// The lines that pass the filter, in their order.
pub open spec fn visible(messages: Seq<ChatLine>, query: Seq<char>) -> Seq<ChatLine> {
    messages.filter(
        |line: ChatLine| passes(text::lowercase(line.text), text::lowercase(query)),
    )
}

/// How a line is shown when an answer goes to `target`.
pub open spec fn look(line: ChatLine, target: Option<Seq<char>>) -> BubbleLook {
    BubbleLook {
        id: line.id,
        text: line.text,
        timestamp: line.timestamp,
        side: if line.is_mine {
            Side::Right
        } else {
            Side::Left
        },
        background: if line.is_mine {
            Rgb { red: 217, green: 253, blue: 211 }
        } else {
            Rgb { red: 255, green: 255, blue: 255 }
        },
        is_targeted: target == Some(line.id),
    }
}

/// How lines are shown when an answer goes to `target`.
pub open spec fn shown(messages: Seq<ChatLine>, target: Option<Seq<char>>) -> Seq<BubbleLook> {
    Seq::new(messages.len(), |i: int| look(messages[i], target))
}

/// What is said of the target of an answer.
pub open spec fn caption(board: Board) -> TargetCaption {
    match (board.selected_id, board.latest_id) {
        (Some(id), _) => TargetCaption::Locked("🔒 Locked Target: "@ + id),
        (None, Some(id)) => TargetCaption::Automatic("🔄 Auto-Targeting Latest: "@ + id),
        (None, None) => TargetCaption::Waiting("Waiting for target ID..."@),
    }
}

/// Whether a text passes the filter, both it and the query in lower case.
pub fn passes_filter(lowered_text: &str, lowered_query: &str) -> (r: bool)
    ensures
        r == passes(lowered_text@, lowered_query@),
{
    lowered_query.is_empty() || text::contains(lowered_text, lowered_query)
}

/// How a message is shown when an answer goes to `target`.
pub fn bubble(line: &ChatMessage, target: &Option<String>) -> (r: Bubble)
    ensures
        r@ == look(line@, text::opt_text(*target)),
{
    let is_targeted = match target {
        Some(id) => line.id == *id,
        None => false,
    };
    Bubble {
        id: line.id.clone(),
        text: line.text.clone(),
        timestamp: line.timestamp.clone(),
        side: if line.is_mine {
            Side::Right
        } else {
            Side::Left
        },
        background: if line.is_mine {
            Rgb { red: 217, green: 253, blue: 211 }
        } else {
            Rgb { red: 255, green: 255, blue: 255 }
        },
        is_targeted,
    }
}

impl Dashboard {
    /// What is said of the target of an answer.
    pub fn target_display(&self) -> (r: TargetDisplay)
        ensures
            r@ == caption(self.board()),
    {
        match (&self.selected_id, &self.latest_id) {
            (Some(id), _) => TargetDisplay::Locked(text::join("🔒 Locked Target: ", id.as_str())),
            (None, Some(id)) => TargetDisplay::Automatic(
                text::join("🔄 Auto-Targeting Latest: ", id.as_str()),
            ),
            (None, None) => TargetDisplay::Waiting("Waiting for target ID...".to_owned()),
        }
    }

    /// All that the dashboard shows. Under an empty query that is every message.
    pub fn view(&self) -> (r: Screen)
        ensures
            looks(r.bubbles@) == shown(
                visible(self.board().messages, self.board().filter_query),
                self.board().target(),
            ),
            self.board().filter_query.len() == 0 ==> looks(r.bubbles@) == shown(
                self.board().messages,
                self.board().target(),
            ),
            r.target@ == caption(self.board()),
            r.filter_query@ == self.board().filter_query,
            r.input_value@ == self.board().input_value,
    {
        let active_id = self.active_target_id();
        let query = self.filter_query.as_str().to_lowercase();
        let ghost all = self.board().messages;
        let ghost pred = |line: ChatLine|
            passes(text::lowercase(line.text), text::lowercase(self.filter_query@));
        let mut bubbles: Vec<Bubble> = Vec::new();
        let mut i: usize = 0;
        let ghost target = self.board().target();
        proof {
            assert(all.take(0).filter(pred) =~= Seq::<ChatLine>::empty()) by {
                reveal_with_fuel(Seq::filter, 2);
            }
            assert(looks(bubbles@) =~= shown(all.take(0).filter(pred), target));
        }
        while i < self.messages.len()
            invariant
                i <= self.messages.len(),
                all == message::lines(self.messages@),
                query@ == text::lowercase(self.filter_query@),
                text::opt_text(active_id) == target,
                pred == (|line: ChatLine|
                    passes(text::lowercase(line.text), text::lowercase(self.filter_query@))),
                looks(bubbles@) == shown(all.take(i as int).filter(pred), target),
                query@.len() == 0 ==> all.take(i as int).filter(pred) == all.take(i as int),
            decreases self.messages.len() - i,
        {
            let ghost before = bubbles@;
            let ghost kept = all.take(i as int).filter(pred);
            let lowered = self.messages[i].text.as_str().to_lowercase();
            proof {
                let now = all.take(i + 1);
                assert(now.drop_last() =~= all.take(i as int));
                assert(now.last() == self.messages@[i as int]@);
                reveal_with_fuel(Seq::filter, 2);
                assert(now =~= all.take(i as int).push(now.last()));
            }
            if passes_filter(lowered.as_str(), query.as_str()) {
                let shown_line = bubble(&self.messages[i], &active_id);
                bubbles.push(shown_line);
                proof {
                    assert(all.take(i + 1).filter(pred) == kept.push(self.messages@[i as int]@));
                    assert(looks(bubbles@) =~= looks(before).push(shown_line@));
                    assert(looks(bubbles@) =~= shown(all.take(i + 1).filter(pred), target));
                }
            } else {
                assert(all.take(i + 1).filter(pred) == kept);
            }
            i = i + 1;
        }
        assert(all.take(i as int) =~= all);
        Screen {
            bubbles,
            target: self.target_display(),
            filter_query: self.filter_query.clone(),
            input_value: self.input_value.clone(),
        }
    }
}

} // verus!
