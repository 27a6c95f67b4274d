//! Chat messages and the envelopes that address them.
use crate::json::{json_event, Event, Json, JsonValue};
use crate::session::Session;
use vstd::prelude::*;
use vstd::std_specs::convert::FromSpecImpl;

verus! {

/// A message from a sender, with arbitrary JSON content.
#[derive(Debug)]
pub struct ChatMessage {
    pub sender: Session,
    pub content: JsonValue,
}

/// A message and the sessions it is for; no sessions means every session.
#[derive(Debug)]
pub struct Envelope {
    pub receiver: Vec<Session>,
    pub message: ChatMessage,
}

impl ChatMessage {
    /// The sender's identifier and the model of the content.
    pub open spec fn model(&self) -> (Seq<char>, Json) {
        (self.sender@, self.content@)
    }
}

impl Clone for ChatMessage {
    fn clone(&self) -> (r: Self)
        ensures
            r.model() == self.model(),
    {
        ChatMessage { sender: self.sender.clone(), content: self.content.clone() }
    }
}

impl From<(Session, JsonValue)> for ChatMessage {
    fn from(value: (Session, JsonValue)) -> (r: ChatMessage) {
        ChatMessage { sender: value.0, content: value.1 }
    }
}

impl FromSpecImpl<(Session, JsonValue)> for ChatMessage {
    open spec fn obeys_from_spec() -> bool {
        true
    }

    open spec fn from_spec(v: (Session, JsonValue)) -> ChatMessage {
        ChatMessage { sender: v.0, content: v.1 }
    }
}

impl Event for ChatMessage {
    open spec fn event_name(&self) -> Option<Seq<char>> {
        json_event(self.content@)
    }

    fn event(&self) -> (r: Option<&str>) {
        self.content.event()
    }
}

} // verus!
