//! The chat objects that the handlers read: users, messages, inbound
//! events and the bot's own identity.

use vstd::prelude::*;

verus! {

/// A chat participant.
#[derive(Clone, Debug, PartialEq, Eq)]
pub struct User {
    pub id: u64,
    pub username: Option<String>,
    pub first_name: String,
}

/// What a `User` holds, as plain mathematical values.
pub struct UserView {
    pub id: nat,
    pub username: Option<Seq<char>>,
    pub first_name: Seq<char>,
}

impl View for User {
    type V = UserView;

    open spec fn view(&self) -> UserView {
        UserView {
            id: self.id as nat,
            username: match self.username {
                Some(name) => Some(name@),
                None => None,
            },
            first_name: self.first_name@,
        }
    }
}

/// A chat message. `reply_target` is the message that this one answers.
#[derive(Debug, PartialEq, Eq)]
pub struct Message {
    pub id: i32,
    pub chat_id: i64,
    pub sender: Option<User>,
    pub text: Option<String>,
    pub reply_target: Option<Box<Message>>,
}

/// What a `Message` holds, as plain mathematical values.
pub struct MessageView {
    pub id: int,
    pub chat_id: int,
    pub sender: Option<UserView>,
    pub text: Option<Seq<char>>,
    pub reply_target: Option<Box<MessageView>>,
}

impl View for Message {
    type V = MessageView;

    open spec fn view(&self) -> MessageView
        decreases self,
    {
        MessageView {
            id: self.id as int,
            chat_id: self.chat_id as int,
            sender: match self.sender {
                Some(user) => Some(user@),
                None => None,
            },
            text: match self.text {
                Some(text) => Some(text@),
                None => None,
            },
            reply_target: match self.reply_target {
                Some(target) => Some(Box::new((*target)@)),
                None => None,
            },
        }
    }
}

impl MessageView {
    /// No message in the reply chain answers itself: a reply target is
    /// another message than the one that replies to it.
    pub open spec fn causal(self) -> bool
        decreases self,
    {
        match self.reply_target {
            Some(target) => {
                &&& !(target.chat_id == self.chat_id && target.id == self.id)
                &&& target.causal()
            },
            None => true,
        }
    }
}

/// The bot's own account name, resolved once when the process starts.
#[derive(Clone, Debug, PartialEq, Eq)]
pub struct BotIdentity {
    pub username: String,
}

impl View for BotIdentity {
    type V = Seq<char>;

    open spec fn view(&self) -> Seq<char> {
        self.username@
    }
}

/// One inbound notification from the chat platform.
#[derive(Debug, PartialEq, Eq)]
pub struct Event {
    pub message: Option<Message>,
}

impl View for Event {
    type V = Option<MessageView>;

    open spec fn view(&self) -> Option<MessageView> {
        match self.message {
            Some(message) => Some(message@),
            None => None,
        }
    }
}

impl Message {
    /// Whether no message in the reply chain answers itself.
    pub fn is_causal(&self) -> (ok: bool)
        ensures
            ok == self@.causal(),
        decreases self,
    {
        match &self.reply_target {
            Some(target) => {
                assert(self@.reply_target == Some(Box::new((**target)@)));
                !(target.chat_id == self.chat_id && target.id == self.id) && target.is_causal()
            },
            None => {
                assert(self@.reply_target is None);
                true
            },
        }
    }
}

} // verus!
