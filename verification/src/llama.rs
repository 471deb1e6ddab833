//! The local chat backend: bound to a model file, it renders the prompt
//! template — `{system}`, `{prompt}` and a per-turn `{history}` block —
//! and hands the result to the inference engine. Driving the engine and
//! forwarding its token callbacks is synchronous work the caller performs
//! around these functions.

use vstd::prelude::*;
use vstd::string::StringExecFns;

use crate::ichat::{IChat, Message, MessageView, Role};
use crate::setup::LLamaSetup;
use crate::text::{replace_all, replace_seq};

verus! {

/// A rendered block with the placeholders that stayed unfilled scrubbed
/// away.
pub open spec fn scrubbed(s: Seq<char>) -> Seq<char> {
    replace_seq(replace_seq(s, "{user}"@, Seq::empty()), "{assistant}"@, Seq::empty())
}

/// The `{history}` block: walking the prior messages in order, a user
/// message fills `{user}` in the current copy of the per-turn template and
/// an assistant message fills `{assistant}` and closes the copy, which is
/// scrubbed and appended; a copy left open at the end is scrubbed and
/// appended too.
pub open spec fn render_history(
    tmpl: Seq<char>,
    msgs: Seq<MessageView>,
    block: Seq<char>,
    touched: bool,
) -> Seq<char>
    decreases msgs.len(),
{
    if msgs.len() == 0 {
        if touched {
            scrubbed(block)
        } else {
            Seq::empty()
        }
    } else {
        let m = msgs[0];
        if m.role == Role::User {
            render_history(tmpl, msgs.drop_first(), replace_seq(block, "{user}"@, m.content), true)
        } else if m.role == Role::Assistant {
            scrubbed(replace_seq(block, "{assistant}"@, m.content)) + render_history(
                tmpl,
                msgs.drop_first(),
                tmpl,
                false,
            )
        } else {
            render_history(tmpl, msgs.drop_first(), block, touched)
        }
    }
}

/// The full prompt handed to the engine: without a configured template the
/// bare prompt; with one, the template with `{system}`, then `{prompt}`,
/// then `{history}` substituted, in that order.
pub open spec fn llama_prompt(
    ptmpl: Option<Seq<char>>,
    htmpl: Option<Seq<char>>,
    system: Option<Seq<char>>,
    msgs: Seq<MessageView>,
    prompt: Seq<char>,
) -> Seq<char> {
    match ptmpl {
        None => prompt,
        Some(p) => {
            let hst = match htmpl {
                Some(h) => render_history(h, msgs, h, false),
                None => Seq::empty(),
            };
            let sys = match system {
                Some(s) => s,
                None => Seq::empty(),
            };
            replace_seq(
                replace_seq(replace_seq(p, "{system}"@, sys), "{prompt}"@, prompt),
                "{history}"@,
                hst,
            )
        },
    }
}

fn scrub_text(s: &str) -> (r: String)
    ensures
        r@ == scrubbed(s@),
{
    proof {
        reveal_strlit("{user}");
        reveal_strlit("{assistant}");
        reveal_strlit("");
        assert(""@ =~= Seq::<char>::empty());
    }
    let step = replace_all(s, "{user}", "");
    replace_all(step.as_str(), "{assistant}", "")
}

fn render_history_text(tmpl: &str, msgs: &Vec<Message>) -> (r: String)
    ensures
        r@ == render_history(tmpl@, msgs.deep_view(), tmpl@, false),
{
    let ghost dv = msgs.deep_view();
    let mut acc = String::new();
    let mut block = String::from_str(tmpl);
    let mut touched = false;
    let mut i: usize = 0;
    proof {
        assert(dv.skip(0) =~= dv);
    }
    while i < msgs.len()
        invariant
            i <= msgs.len(),
            dv == msgs.deep_view(),
            acc@ + render_history(tmpl@, dv.skip(i as int), block@, touched) == render_history(
                tmpl@,
                dv,
                tmpl@,
                false,
            ),
        decreases msgs.len() - i,
    {
        proof {
            reveal_strlit("{user}");
            reveal_strlit("{assistant}");
            assert(dv.skip(i as int).len() > 0);
            assert(dv.skip(i as int)[0] == dv[i as int]);
            assert(dv.skip(i as int).drop_first() =~= dv.skip(i + 1));
        }
        let m = &msgs[i];
        match m.role {
            Role::User => {
                block = replace_all(block.as_str(), "{user}", m.content.as_str());
                touched = true;
            },
            Role::Assistant => {
                let done = replace_all(block.as_str(), "{assistant}", m.content.as_str());
                let closed = scrub_text(done.as_str());
                let ghost pacc = acc@;
                acc.append(closed.as_str());
                block = String::from_str(tmpl);
                touched = false;
                proof {
                    assert((pacc + closed@) + render_history(tmpl@, dv.skip(i + 1), tmpl@, false)
                        =~= pacc + (closed@ + render_history(tmpl@, dv.skip(i + 1), tmpl@, false)));
                }
            },
            Role::System => {},
        }
        i = i + 1;
    }
    proof {
        assert(dv.skip(msgs.len() as int) =~= Seq::<MessageView>::empty());
    }
    if touched {
        let tail = scrub_text(block.as_str());
        acc.append(tail.as_str());
    }
    acc
}

/// The local backend: its configuration, the optional system prompt, and
/// whether the engine's diagnostic chatter stays visible.
#[derive(Debug)]
pub struct LLamaChat {
    pub setup: LLamaSetup,
    pub system: Option<String>,
    pub verbose: bool,
}

impl IChat for LLamaChat {
    open spec fn chat_name(&self) -> Seq<char> {
        "llama"@
    }

    open spec fn system_of(&self) -> Option<Seq<char>> {
        self.system.deep_view()
    }

    open spec fn model_of(&self) -> Seq<char> {
        self.setup.model@
    }

    fn get_name(&mut self) -> (r: &str) {
        "llama"
    }

    fn set_system(&mut self, system: String)
        ensures
            final(self).setup == old(self).setup,
            final(self).verbose == old(self).verbose,
    {
        self.system = Some(system);
    }

    /// The local backend is bound to its model file; the identifier is
    /// ignored.
    fn set_model(&mut self, model: String)
        ensures
            *final(self) == *old(self),
    {
    }
}

impl LLamaChat {
    /// A local backend over the given configuration, with no system prompt.
    pub fn new(setup: &LLamaSetup, verbose: bool) -> (c: LLamaChat)
        ensures
            c.setup@ == setup@,
            (c.system is None),
            c.verbose == verbose,
    {
        LLamaChat { setup: setup.duplicate(), system: None, verbose }
    }

    /// Renders the full prompt for one turn, exactly as `llama_prompt`
    /// describes it.
    pub fn get_prompt(&self, prompt: &str, history: &Vec<Message>) -> (r: String)
        ensures
            r@ == llama_prompt(
                self.setup@.prompt,
                self.setup@.history,
                self.system.deep_view(),
                history.deep_view(),
                prompt@,
            ),
    {
        match &self.setup.prompt {
            None => String::from_str(prompt),
            Some(ptmpl) => {
                proof {
                    reveal_strlit("{system}");
                    reveal_strlit("{prompt}");
                    reveal_strlit("{history}");
                    reveal_strlit("");
                }
                let hst: String = match &self.setup.history {
                    Some(htmpl) => render_history_text(htmpl.as_str(), history),
                    None => String::new(),
                };
                let sys: String = match &self.system {
                    Some(s) => s.clone(),
                    None => String::new(),
                };
                let step = replace_all(ptmpl.as_str(), "{system}", sys.as_str());
                let step = replace_all(step.as_str(), "{prompt}", prompt);
                replace_all(step.as_str(), "{history}", hst.as_str())
            },
        }
    }
}

} // verus!
