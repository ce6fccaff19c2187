//! The structured form of a line of the message log.

use crate::clients::Clients;
use vstd::prelude::*;

verus! {

/// A line whose time stamp was read. `username` and `content` are empty and
/// `client` is absent when no signature was found after the time stamp.
#[derive(Debug, PartialEq, Eq)]
pub struct Message {
    pub content: String,
    pub username: String,
    pub timestamp: Option<String>,
    pub client: Option<Clients>,
    pub avatar_url: Option<String>,
}

/// What a `Message` holds, as plain values.
pub ghost struct MessageView {
    pub content: Seq<char>,
    pub username: Seq<char>,
    pub timestamp: Option<Seq<char>>,
    pub client: Option<Clients>,
    pub avatar_url: Option<Seq<char>>,
}

/// The characters of an optional string.
pub open spec fn text_of(s: Option<String>) -> Option<Seq<char>> {
    match s {
        Some(t) => Some(t@),
        None => None,
    }
}

impl View for Message {
    type V = MessageView;

    open spec fn view(&self) -> MessageView {
        MessageView {
            content: self.content@,
            username: self.username@,
            timestamp: text_of(self.timestamp),
            client: self.client,
            avatar_url: text_of(self.avatar_url),
        }
    }
}

/// A line as it was received, and its structured form where the line has a
/// time stamp.
#[derive(Debug, PartialEq, Eq)]
pub struct MessageResponse {
    pub message: Option<Message>,
    pub raw_string: String,
}

/// What a `MessageResponse` holds, as plain values.
pub ghost struct MessageResponseView {
    pub message: Option<MessageView>,
    pub raw_string: Seq<char>,
}

impl View for MessageResponse {
    type V = MessageResponseView;

    open spec fn view(&self) -> MessageResponseView {
        MessageResponseView {
            message: match self.message {
                Some(m) => Some(m@),
                None => None,
            },
            raw_string: self.raw_string@,
        }
    }
}

/// What each response of a batch holds, in order.
pub open spec fn views(batch: Seq<MessageResponse>) -> Seq<MessageResponseView> {
    batch.map_values(|m: MessageResponse| m@)
}

} // verus!
