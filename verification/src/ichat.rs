//! The shared vocabulary of conversational units and the capability
//! interface that every chat backend offers.

use vstd::prelude::*;
use vstd::string::StringExecFns;

verus! {

/// Who authored a message in a conversation.
#[derive(Clone, Copy, Debug, PartialEq, Eq, Structural)]
pub enum Role {
    User,
    System,
    Assistant,
}

impl Role {
    /// The fixed lowercase token this role serializes to.
    pub open spec fn spec_str(self) -> Seq<char> {
        match self {
            Role::User => "user"@,
            Role::System => "system"@,
            Role::Assistant => "assistant"@,
        }
    }

    pub fn as_str(&self) -> (r: &'static str)
        ensures
            r@ == self.spec_str(),
    {
        match self {
            Role::User => "user",
            Role::System => "system",
            Role::Assistant => "assistant",
        }
    }

    pub fn to_string(&self) -> (r: String)
        ensures
            r@ == self.spec_str(),
    {
        String::from_str(self.as_str())
    }
}

/// One transport unit between the assembler and a backend: a role plus text.
#[derive(Clone, Debug, PartialEq)]
pub struct Message {
    pub role: Role,
    pub content: String,
}

/// The mathematical value of a `Message`: its role and the characters of its
/// content.
#[verifier::ext_equal]
pub struct MessageView {
    pub role: Role,
    pub content: Seq<char>,
}

impl View for Message {
    type V = MessageView;

    open spec fn view(&self) -> MessageView {
        MessageView { role: self.role, content: self.content@ }
    }
}

impl DeepView for Message {
    type V = MessageView;

    open spec fn deep_view(&self) -> MessageView {
        self@
    }
}

impl Message {
    /// Builds a message; the only way messages are created.
    pub fn new(role: Role, content: String) -> (m: Message)
        ensures
            m@.role == role,
            m@.content == content@,
    {
        Message { role, content }
    }

    /// A copy whose value is known to equal the original's.
    pub fn duplicate(&self) -> (m: Message)
        ensures
            m@ == self@,
    {
        Message { role: self.role, content: self.content.clone() }
    }
}

/// The capability set shared by every chat backend: identify itself, accept
/// a system prompt, accept a model identifier. Running one conversational
/// turn is carried out around these by transport code, which feeds the
/// decoded events back into the verified functions of each backend.
pub trait IChat: Sized {
    /// The stable short name used as the provenance tag in stored turns.
    spec fn chat_name(&self) -> Seq<char>;

    /// The system prompt the backend currently holds.
    spec fn system_of(&self) -> Option<Seq<char>>;

    /// The model the backend currently addresses.
    spec fn model_of(&self) -> Seq<char>;

    fn get_name(&mut self) -> (r: &str)
        ensures
            *final(self) == *old(self),
            r@ == old(self).chat_name(),
    ;

    /// Sets the system prompt; consulted before the first turn, and
    /// idempotent — what the backend observes afterwards depends only on
    /// the text given.
    fn set_system(&mut self, system: String)
        ensures
            final(self).system_of() == Some(system@),
            final(self).chat_name() == old(self).chat_name(),
            final(self).model_of() == old(self).model_of(),
    ;

    /// Sets the model; a backend bound to a fixed model keeps it and is
    /// otherwise unchanged.
    fn set_model(&mut self, model: String)
        ensures
            final(self).chat_name() == old(self).chat_name(),
            final(self).system_of() == old(self).system_of(),
            final(self).model_of() == model@ || final(self).model_of() == old(self).model_of(),
    ;
}

} // verus!
