//! An alternative remote backend handle kept for its configuration
//! surface; turns through it run over the same assembled message list as
//! the streaming backend.

use vstd::prelude::*;
use vstd::string::StringExecFns;

use crate::ichat::IChat;
use crate::setup::{default_model, spec_default_model};

verus! {

/// A remote backend handle: API key, selected model, optional system
/// prompt.
#[derive(Debug)]
pub struct ChatGPT {
    pub apikey: String,
    pub model: String,
    pub system: Option<String>,
}

impl IChat for ChatGPT {
    open spec fn chat_name(&self) -> Seq<char> {
        "chatgpt"@
    }

    open spec fn system_of(&self) -> Option<Seq<char>> {
        self.system.deep_view()
    }

    open spec fn model_of(&self) -> Seq<char> {
        self.model@
    }

    fn get_name(&mut self) -> (r: &str) {
        "chatgpt"
    }

    fn set_system(&mut self, system: String)
        ensures
            final(self).apikey == old(self).apikey,
            final(self).model == old(self).model,
    {
        self.system = Some(system);
    }

    fn set_model(&mut self, model: String)
        ensures
            final(self).model_of() == model@,
            final(self).apikey == old(self).apikey,
            final(self).system == old(self).system,
    {
        self.model = model;
    }
}

impl ChatGPT {
    /// A handle over the given key, with the default model and no system
    /// prompt.
    pub fn new(apikey: String) -> (c: ChatGPT)
        ensures
            c.apikey@ == apikey@,
            c.model@ == spec_default_model(),
            (c.system is None),
    {
        ChatGPT { apikey, model: String::from_str(default_model()), system: None }
    }
}

} // verus!
