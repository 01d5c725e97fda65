//! The state of a conversation.

use crate::json::{Json, JsonView};
use crate::key_map::KeyMap;
use crate::language_model::message;
use crate::language_model::message::{Message, MessageView, Role};
use vstd::prelude::*;
use vstd::string::*;

verus! {

/// A conversation.
#[derive(Debug, PartialEq, Eq)]
pub struct Session {
    /// An identifier of the caller's choice.
    pub id: String,
    /// The messages, in order.
    pub messages: Vec<Message>,
    /// Whatever callers and hooks want to keep with the conversation.
    pub metadata: KeyMap<String, Json>,
}

/// Model of a session.
#[verifier::ext_equal]
pub struct SessionView {
    pub id: Seq<char>,
    pub messages: Seq<MessageView>,
    pub metadata: Seq<(Seq<char>, JsonView)>,
}

impl View for Session {
    type V = SessionView;

    open spec fn view(&self) -> SessionView {
        SessionView {
            id: self.id@,
            messages: self.messages.deep_view(),
            metadata: self.metadata@,
        }
    }
}

impl DeepView for Session {
    type V = SessionView;

    open spec fn deep_view(&self) -> SessionView {
        self@
    }
}

impl Clone for Session {
    fn clone(&self) -> (r: Self)
        ensures
            r@ == self@,
    {
        let messages = self.messages.clone();
        assert(messages.deep_view() =~= self.messages.deep_view());
        Session { id: self.id.clone(), messages, metadata: self.metadata.clone() }
    }
}

/// A session without messages and metadata.
pub open spec fn new_session(id: Seq<char>) -> SessionView {
    SessionView { id, messages: Seq::empty(), metadata: Seq::empty() }
}

/// The session with one more message.
pub open spec fn pushed(s: SessionView, m: MessageView) -> SessionView {
    SessionView { id: s.id, messages: s.messages.push(m), metadata: s.metadata }
}

/// The session in which a run starts: the seed, or an empty one, and the input as a user message
/// unless it is empty.
pub open spec fn run_session(seed: Option<SessionView>, input: Seq<char>) -> SessionView {
    let start = match seed {
        Some(s) => s,
        None => new_session(Seq::empty()),
    };
    if input.len() == 0 {
        start
    } else {
        pushed(start, message::text_message(Role::User, input))
    }
}

impl Default for Session {
    fn default() -> (r: Self)
        ensures
            r@ == new_session(Seq::empty()),
    {
        Session::new(String::new())
    }
}

impl Session {
    /// A session without messages.
    pub fn new(id: String) -> (r: Self)
        ensures
            r@ == new_session(id@),
    {
        Session { id, messages: Vec::new(), metadata: KeyMap::new() }
    }

    /// Appends a message.
    pub fn push(&mut self, message: Message)
        ensures
            final(self)@ == pushed(old(self)@, message@),
    {
        let ghost before = self.messages.deep_view();
        let ghost m = message@;
        self.messages.push(message);
        assert(self.messages.deep_view() =~= before.push(m));
    }

    /// The session in which a run with this input starts.
    pub fn for_run(seed: Option<Session>, input: &str) -> (r: Self)
        ensures
            r@ == run_session(seed.deep_view(), input@),
    {
        let mut session = match seed {
            Some(s) => s,
            None => Session::new(String::new()),
        };
        if !input.is_empty() {
            session.push(Message::user(input.to_owned()));
        }
        session
    }

    /// The identifier, where there is one.
    pub fn id_if_any(&self) -> (r: Option<String>)
        ensures
            r.deep_view() == named_id(self@),
    {
        if self.id.as_str().is_empty() {
            None
        } else {
            Some(self.id.clone())
        }
    }
}

/// The identifier, where it is not empty.
pub open spec fn named_id(s: SessionView) -> Option<Seq<char>> {
    if s.id.len() == 0 {
        None
    } else {
        Some(s.id)
    }
}

} // verus!
