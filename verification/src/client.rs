//! The outbound calls that a handler can ask for, and the ways in which the
//! chat platform can fail them.

use crate::keyboard::{ButtonView, KeyboardLayout};
use vstd::prelude::*;

verus! {

/// Why the chat platform did not carry out a call.
#[derive(Clone, Copy, Debug, PartialEq, Eq, Structural)]
pub enum ApiError {
    Network,
    RateLimited,
    PermissionDenied,
    Other,
}

/// How the text of a message is to be read by the chat platform.
#[derive(Clone, Copy, Debug, PartialEq, Eq, Structural)]
pub enum MarkupMode {
    Plain,
    Html,
}

/// A request to post a message to a chat.
#[derive(Debug, PartialEq, Eq)]
pub struct SendRequest {
    pub chat_id: i64,
    pub text: String,
    pub markup_mode: MarkupMode,
    pub reply_to: Option<i32>,
    pub keyboard: Option<KeyboardLayout>,
}

/// What a `SendRequest` holds, as plain mathematical values.
pub struct SendRequestView {
    pub chat_id: int,
    pub text: Seq<char>,
    pub markup_mode: MarkupMode,
    pub reply_to: Option<int>,
    pub keyboard: Option<Seq<Seq<ButtonView>>>,
}

impl View for SendRequest {
    type V = SendRequestView;

    open spec fn view(&self) -> SendRequestView {
        SendRequestView {
            chat_id: self.chat_id as int,
            text: self.text@,
            markup_mode: self.markup_mode,
            reply_to: match self.reply_to {
                Some(id) => Some(id as int),
                None => None,
            },
            keyboard: match self.keyboard {
                Some(layout) => Some(layout@),
                None => None,
            },
        }
    }
}

/// A request to remove one message from a chat.
#[derive(Clone, Copy, Debug, PartialEq, Eq, Structural)]
pub struct DeleteRequest {
    pub chat_id: i64,
    pub message_id: i32,
}

/// What a `DeleteRequest` holds, as plain mathematical values.
pub struct DeleteRequestView {
    pub chat_id: int,
    pub message_id: int,
}

impl View for DeleteRequest {
    type V = DeleteRequestView;

    open spec fn view(&self) -> DeleteRequestView {
        DeleteRequestView { chat_id: self.chat_id as int, message_id: self.message_id as int }
    }
}

} // verus!
