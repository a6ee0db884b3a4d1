//! The dashboard: its state, and what each message does to it.
use vstd::prelude::*;

use crate::clock;
use crate::ids;
use crate::message;
use crate::message::{ChatLine, ChatMessage, Demand, Effect, MessagePayload, Msg, Signal};
use crate::text;

verus! {

/// The id of a message that is about no note.
pub const UNKNOWN_ID: &'static str = "unknown";

/// Said when there is nowhere to send a message to.
pub const NO_TARGET: &'static str = "Cannot POST: No target ID available.";

/// Said, with the reason, when a note could not be updated.
pub const POST_FAILED: &'static str = "Failed background post task: ";

/// How long to wait after each note that is emptied, in milliseconds.
pub const NUKE_PAUSE_MS: u64 = 100;

/// The state of the dashboard.
pub struct Dashboard {
    pub messages: Vec<ChatMessage>,
    pub input_value: String,
    pub filter_query: String,
    pub server_ip: String,
    pub router_ip: String,
    /// The target that the user locked.
    pub selected_id: Option<String>,
    /// The id of the latest payload that came in.
    pub latest_id: Option<String>,
    /// Whether the end of the conversation is in sight.
    pub is_at_bottom: bool,
}

/// The contents of a `Dashboard`.
pub struct Board {
    pub messages: Seq<ChatLine>,
    pub input_value: Seq<char>,
    pub filter_query: Seq<char>,
    pub server_ip: Seq<char>,
    pub router_ip: Seq<char>,
    pub selected_id: Option<Seq<char>>,
    pub latest_id: Option<Seq<char>>,
    pub is_at_bottom: bool,
}

impl Board {
    /// A dashboard on which nothing has happened.
    pub open spec fn fresh(server_ip: Seq<char>, router_ip: Seq<char>) -> Board {
        Board {
            messages: Seq::empty(),
            input_value: Seq::empty(),
            filter_query: Seq::empty(),
            server_ip,
            router_ip,
            selected_id: None,
            latest_id: None,
            is_at_bottom: true,
        }
    }

    /// Where an answer goes: the locked target, else the latest id.
    pub open spec fn target(self) -> Option<Seq<char>> {
        match self.selected_id {
            Some(id) => Some(id),
            None => self.latest_id,
        }
    }

    /// Whether a message puts a line with a timestamp on the board.
    pub open spec fn stamps(self, signal: Signal) -> bool {
        match signal {
            Signal::SendMessage => !text::is_blank(self.input_value),
            Signal::Received(_, _) => true,
            _ => false,
        }
    }

    /// The board with one more line.
    pub open spec fn with_line(self, line: ChatLine) -> Board {
        Board { messages: self.messages.push(line), ..self }
    }

    /// The requests that empty every note on the board, each of them once.
    pub open spec fn nuke_demands(self) -> Seq<Demand> {
        let all = ids::distinct_ids(self.messages);
        Seq::new(
            all.len(),
            |i: int|
                Demand::UpdateNote {
                    nuke: true,
                    router: self.router_ip,
                    id: all[i],
                    text: Seq::empty(),
                    pause_ms: NUKE_PAUSE_MS,
                },
        )
    }

    /// The board after the typed text is sent at the time `now`, and what is asked for.
    pub open spec fn after_send(self, now: Seq<char>) -> (Board, Seq<Demand>) {
        if text::is_blank(self.input_value) {
            (self, Seq::empty())
        } else {
            let line = ChatLine {
                id: match self.target() {
                    Some(id) => id,
                    None => UNKNOWN_ID@,
                },
                text: self.input_value,
                is_mine: true,
                timestamp: now,
            };
            let sent = Board { input_value: Seq::empty(), ..self.with_line(line) };
            match self.target() {
                Some(id) => (
                    Board { selected_id: None, ..sent },
                    seq![
                        Demand::UpdateNote {
                            nuke: false,
                            router: self.router_ip,
                            id,
                            text: self.input_value,
                            pause_ms: 0,
                        },
                        Demand::SnapToEnd,
                    ],
                ),
                None => (sent, seq![Demand::Print(NO_TARGET@)]),
            }
        }
    }

    /// The board after a text frame came in at the time `now`, and what is asked for.
    pub open spec fn after_receipt(
        self,
        frame: Seq<char>,
        payload: Option<message::Payload>,
        now: Seq<char>,
    ) -> (Board, Seq<Demand>) {
        let board = match payload {
            Some(p) => Board { latest_id: Some(p.id), ..self }.with_line(
                ChatLine { id: p.id, text: p.content, is_mine: false, timestamp: now },
            ),
            None => self.with_line(
                ChatLine { id: UNKNOWN_ID@, text: frame, is_mine: false, timestamp: now },
            ),
        };
        (
            board,
            if self.is_at_bottom {
                seq![Demand::SnapToEnd]
            } else {
                Seq::empty()
            },
        )
    }

    /// The board after a message that came at the time `now`, and what is asked for.
    pub open spec fn after(self, signal: Signal, now: Seq<char>) -> (Board, Seq<Demand>) {
        match signal {
            Signal::InputChanged(val) => (Board { input_value: val, ..self }, Seq::empty()),
            Signal::FilterChanged(val) => (Board { filter_query: val, ..self }, Seq::empty()),
            Signal::SelectMessage(id) => (Board { selected_id: Some(id), ..self }, Seq::empty()),
            Signal::ClearSelection => (Board { selected_id: None, ..self }, Seq::empty()),
            Signal::NukeMessages => (
                Board { messages: Seq::empty(), ..self },
                self.nuke_demands(),
            ),
            Signal::SendMessage => self.after_send(now),
            Signal::PostResult(Ok(_)) => (self, Seq::empty()),
            Signal::PostResult(Err(e)) => (self, seq![Demand::Print(POST_FAILED@ + e)]),
            Signal::CopyToClipboard(t) => (self, seq![Demand::WriteClipboard(t)]),
            Signal::Received(frame, payload) => self.after_receipt(frame, payload, now),
            Signal::Scrolled(at_bottom) => (
                Board { is_at_bottom: at_bottom, ..self },
                Seq::empty(),
            ),
        }
    }
}

impl Dashboard {
    /// The contents of the dashboard.
    pub open spec fn board(&self) -> Board {
        Board {
            messages: message::lines(self.messages@),
            input_value: self.input_value@,
            filter_query: self.filter_query@,
            server_ip: self.server_ip@,
            router_ip: self.router_ip@,
            selected_id: text::opt_text(self.selected_id),
            latest_id: text::opt_text(self.latest_id),
            is_at_bottom: self.is_at_bottom,
        }
    }

    /// An empty dashboard, scrolled to its end.
    pub fn new(server_ip: String, router_ip: String) -> (r: Dashboard)
        ensures
            r.board() == Board::fresh(server_ip@, router_ip@),
    {
        let r = Dashboard {
            messages: Vec::new(),
            input_value: String::new(),
            filter_query: String::new(),
            server_ip,
            router_ip,
            selected_id: None,
            latest_id: None,
            is_at_bottom: true,
        };
        assert(r.board().messages =~= Seq::<ChatLine>::empty());
        r
    }

    /// Where an answer goes: the locked target, else the latest id.
    pub fn active_target_id(&self) -> (r: Option<String>)
        ensures
            text::opt_text(r) == self.board().target(),
    {
        match &self.selected_id {
            Some(id) => Some(id.clone()),
            None => text::copy_opt(&self.latest_id),
        }
    }

    /// Whether a message puts a line with a timestamp on the board.
    pub fn needs_timestamp(&self, message: &Msg) -> (r: bool)
        ensures
            r == self.board().stamps(message@),
    {
        match message {
            Msg::SendMessage => !text::blank(self.input_value.as_str()),
            Msg::Received(_, _) => true,
            _ => false,
        }
    }

    fn push_line(&mut self, line: ChatMessage)
        ensures
            final(self).board() == old(self).board().with_line(line@),
    {
        self.messages.push(line);
        assert(self.board().messages =~= old(self).board().messages.push(line@));
    }

    /// Empties the board and asks that every note on it be emptied.
    fn nuke_messages(&mut self) -> (effects: Vec<Effect>)
        ensures
            (final(self).board(), message::demands(effects@)) == old(self).board().after(
                Signal::NukeMessages,
                Seq::empty(),
            ),
    {
        let all = ids::collect_ids(&self.messages);
        self.messages.clear();
        let mut effects: Vec<Effect> = Vec::new();
        let mut i: usize = 0;
        while i < all.len()
            invariant
                i <= all.len(),
                text::texts(all@) == ids::distinct_ids(old(self).board().messages),
                self.board().router_ip == old(self).board().router_ip,
                message::demands(effects@) == old(self).board().nuke_demands().take(i as int),
            decreases all.len() - i,
        {
            let ghost before = message::demands(effects@);
            let effect = Effect::UpdateNote {
                nuke: true,
                router: self.router_ip.clone(),
                id: all[i].clone(),
                text: String::new(),
                pause_ms: NUKE_PAUSE_MS,
            };
            effects.push(effect);
            proof {
                let wanted = old(self).board().nuke_demands();
                assert(text::texts(all@)[i as int] == all@[i as int]@);
                assert(effect@ == wanted[i as int]);
                assert(message::demands(effects@) =~= before.push(effect@));
                assert(wanted.take(i + 1) =~= wanted.take(i as int).push(wanted[i as int]));
            }
            i = i + 1;
        }
        proof {
            assert(message::demands(effects@) =~= old(self).board().nuke_demands());
            assert(self.board().messages =~= Seq::<ChatLine>::empty());
        }
        effects
    }

    /// Sends the typed text at the time `now`.
    fn send_message(&mut self, now: String) -> (effects: Vec<Effect>)
        ensures
            (final(self).board(), message::demands(effects@)) == old(self).board().after_send(now@),
    {
        let mut effects: Vec<Effect> = Vec::new();
        if !text::blank(self.input_value.as_str()) {
            let text_to_send = self.input_value.clone();
            let target_id = self.active_target_id();
            let id = match &target_id {
                Some(id) => id.clone(),
                None => UNKNOWN_ID.to_owned(),
            };
            self.push_line(
                ChatMessage { id, text: text_to_send.clone(), is_mine: true, timestamp: now },
            );
            self.input_value = String::new();
            match target_id {
                Some(id) => {
                    self.selected_id = None;
                    effects.push(
                        Effect::UpdateNote {
                            nuke: false,
                            router: self.router_ip.clone(),
                            id,
                            text: text_to_send,
                            pause_ms: 0,
                        },
                    );
                    effects.push(Effect::SnapToEnd);
                },
                None => {
                    effects.push(Effect::Print(NO_TARGET.to_owned()));
                },
            }
        }
        assert(message::demands(effects@) =~= old(self).board().after_send(now@).1);
        effects
    }

    /// Puts a text frame that came in at the time `now` on the board.
    fn receive(&mut self, frame: String, payload: Option<MessagePayload>, now: String) -> (effects:
        Vec<Effect>)
        ensures
            (final(self).board(), message::demands(effects@)) == old(self).board().after(
                Msg::Received(frame, payload)@,
                now@,
            ),
    {
        match payload {
            Some(payload) => {
                self.latest_id = Some(payload.id.clone());
                self.push_line(
                    ChatMessage {
                        id: payload.id,
                        text: payload.content,
                        is_mine: false,
                        timestamp: now,
                    },
                );
            },
            None => {
                self.push_line(
                    ChatMessage {
                        id: UNKNOWN_ID.to_owned(),
                        text: frame,
                        is_mine: false,
                        timestamp: now,
                    },
                );
            },
        }
        let mut effects: Vec<Effect> = Vec::new();
        if self.is_at_bottom {
            effects.push(Effect::SnapToEnd);
        }
        assert(message::demands(effects@) =~= old(self).board().after(
            Msg::Received(frame, payload)@,
            now@,
        ).1);
        effects
    }

    /// What a message that came at the time `now` does to the dashboard.
    pub fn update_at(&mut self, message: Msg, now: String) -> (effects: Vec<Effect>)
        ensures
            (final(self).board(), message::demands(effects@)) == old(self).board().after(
                message@,
                now@,
            ),
    {
        let mut effects: Vec<Effect> = Vec::new();
        match message {
            Msg::InputChanged(val) => {
                self.input_value = val;
            },
            Msg::FilterChanged(val) => {
                self.filter_query = val;
            },
            Msg::SelectMessage(id) => {
                self.selected_id = Some(id);
            },
            Msg::ClearSelection => {
                self.selected_id = None;
            },
            Msg::NukeMessages => {
                return self.nuke_messages();
            },
            Msg::SendMessage => {
                return self.send_message(now);
            },
            Msg::PostResult(result) => {
                if let Err(e) = result {
                    effects.push(Effect::Print(text::join(POST_FAILED, e.as_str())));
                }
            },
            Msg::CopyToClipboard(text) => {
                effects.push(Effect::WriteClipboard(text));
            },
            Msg::Received(frame, payload) => {
                return self.receive(frame, payload, now);
            },
            Msg::Scrolled(at_bottom) => {
                self.is_at_bottom = at_bottom;
            },
        }
        assert(message::demands(effects@) =~= old(self).board().after(message@, now@).1);
        effects
    }

    /// What a message does to the dashboard now. The clock is read only where a line is stamped.
    pub fn update(&mut self, message: Msg) -> (effects: Vec<Effect>)
        ensures
            old(self).board().stamps(message@) ==> exists|now: Seq<char>|
                clock::is_timestamp(now) && #[trigger] old(self).board().after(message@, now) == (
                    final(self).board(),
                    message::demands(effects@),
                ),
            !old(self).board().stamps(message@) ==> forall|now: Seq<char>| #[trigger]
                old(self).board().after(message@, now) == (
                    final(self).board(),
                    message::demands(effects@),
                ),
    {
        let now = if self.needs_timestamp(&message) {
            clock::local_time(clock::TIMESTAMP_FORMAT)
        } else {
            String::new()
        };
        self.update_at(message, now)
    }
}

} // verus!
