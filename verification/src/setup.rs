//! The persisted configuration: the remote API key and defaults, the
//! configured local backends, and the choice of backend for one turn.

use vstd::prelude::*;
use vstd::string::StringExecFns;

use crate::error::ChatError;

verus! {

/// The expiration threshold used when the configuration names none:
/// twenty-four hours, in seconds.
pub const DEFAULT_EXPIRATION: u32 = 86400;

/// The model identifier used when the configuration names none.
pub open spec fn spec_default_model() -> Seq<char> {
    "gpt-4-1106-preview"@
}

pub fn default_model() -> (r: &'static str)
    ensures
        r@ == spec_default_model(),
{
    "gpt-4-1106-preview"
}

/// The system prompt used when the configuration names none.
pub open spec fn spec_default_system() -> Seq<char> {
    "Your are a Linux assistant and a coder."@
}

pub fn default_system() -> (r: &'static str)
    ensures
        r@ == spec_default_system(),
{
    "Your are a Linux assistant and a coder."
}

/// The placeholder an unconfigured API key holds.
pub open spec fn spec_empty_key() -> Seq<char> {
    "<enter your openai api key here>"@
}

pub fn empty_key() -> (r: &'static str)
    ensures
        r@ == spec_empty_key(),
{
    "<enter your openai api key here>"
}

/// One configured local backend: its name, the model file it binds, its
/// optional prompt and per-turn history templates, and the integral
/// generation parameters. The fractional parameters (temperature, top-p)
/// are tuning knobs of the engine call and stay with the caller that makes
/// that call.
#[derive(Debug, Clone, PartialEq)]
pub struct LLamaSetup {
    pub name: String,
    pub model: String,
    pub prompt: Option<String>,
    pub history: Option<String>,
    pub n_gpu_layers: Option<i32>,
    pub tokens: Option<i32>,
    pub threads: Option<i32>,
    pub top_k: Option<i32>,
}

/// The mathematical value of a `LLamaSetup`.
#[verifier::ext_equal]
pub struct LLamaSetupView {
    pub name: Seq<char>,
    pub model: Seq<char>,
    pub prompt: Option<Seq<char>>,
    pub history: Option<Seq<char>>,
    pub n_gpu_layers: Option<i32>,
    pub tokens: Option<i32>,
    pub threads: Option<i32>,
    pub top_k: Option<i32>,
}

impl View for LLamaSetup {
    type V = LLamaSetupView;

    open spec fn view(&self) -> LLamaSetupView {
        LLamaSetupView {
            name: self.name@,
            model: self.model@,
            prompt: self.prompt.deep_view(),
            history: self.history.deep_view(),
            n_gpu_layers: self.n_gpu_layers,
            tokens: self.tokens,
            threads: self.threads,
            top_k: self.top_k,
        }
    }
}

impl DeepView for LLamaSetup {
    type V = LLamaSetupView;

    open spec fn deep_view(&self) -> LLamaSetupView {
        self@
    }
}

fn clone_opt_string(s: &Option<String>) -> (r: Option<String>)
    ensures
        r.deep_view() == s.deep_view(),
{
    match s {
        Some(v) => Some(v.clone()),
        None => None,
    }
}

impl LLamaSetup {
    /// A copy whose value is known to equal the original's.
    pub fn duplicate(&self) -> (r: LLamaSetup)
        ensures
            r@ == self@,
    {
        LLamaSetup {
            name: self.name.clone(),
            model: self.model.clone(),
            prompt: clone_opt_string(&self.prompt),
            history: clone_opt_string(&self.history),
            n_gpu_layers: self.n_gpu_layers,
            tokens: self.tokens,
            threads: self.threads,
            top_k: self.top_k,
        }
    }
}

/// The whole persisted configuration. Every field but the API key is
/// optional and defaulted at read time.
#[derive(Debug, PartialEq)]
pub struct Setup {
    pub apikey: String,
    pub model: Option<String>,
    pub system: Option<String>,
    pub markdown: Option<bool>,
    pub expiration: Option<u32>,
    pub local: Option<Vec<LLamaSetup>>,
}

impl Default for Setup {
    /// The configuration written for a first run: the key placeholder and
    /// every default filled in.
    fn default() -> (s: Setup)
        ensures
            s.apikey@ == spec_empty_key(),
            (s.model matches Some(m) && m@ == spec_default_model()),
            (s.system matches Some(v) && v@ == spec_default_system()),
            s.markdown == Some(true),
            s.expiration == Some(DEFAULT_EXPIRATION),
            (s.local is None),
    {
        Setup {
            apikey: String::from_str(empty_key()),
            model: Some(String::from_str(default_model())),
            system: Some(String::from_str(default_system())),
            markdown: Some(true),
            expiration: Some(DEFAULT_EXPIRATION),
            local: None,
        }
    }
}

impl Setup {
    pub fn get_markdown(&self) -> (r: bool)
        ensures
            r == match self.markdown {
                Some(b) => b,
                None => true,
            },
    {
        match self.markdown {
            Some(b) => b,
            None => true,
        }
    }

    pub fn get_expiration(&self) -> (r: u32)
        ensures
            r == match self.expiration {
                Some(e) => e,
                None => DEFAULT_EXPIRATION,
            },
    {
        match self.expiration {
            Some(e) => e,
            None => DEFAULT_EXPIRATION,
        }
    }

    pub fn get_model(&self) -> (r: String)
        ensures
            r@ == match self.model.deep_view() {
                Some(m) => m,
                None => spec_default_model(),
            },
    {
        match &self.model {
            Some(m) => m.clone(),
            None => String::from_str(default_model()),
        }
    }

    pub fn get_system(&self) -> (r: String)
        ensures
            r@ == match self.system.deep_view() {
                Some(s) => s,
                None => spec_default_system(),
            },
    {
        match &self.system {
            Some(s) => s.clone(),
            None => String::from_str(default_system()),
        }
    }

    /// Whether the configured key is unusable: empty, or still the
    /// placeholder a fresh configuration holds.
    pub fn apikey_missing(&self) -> (r: bool)
        ensures
            r == (self.apikey@.len() == 0 || self.apikey@ == spec_empty_key()),
    {
        if self.apikey.as_str().is_empty() {
            return true;
        }
        let placeholder = String::from_str(empty_key());
        self.apikey == placeholder
    }

    /// Extends the configured local backends with the given list.
    pub fn add_locals(&mut self, list: Vec<LLamaSetup>)
        ensures
            final(self).apikey == old(self).apikey,
            final(self).model == old(self).model,
            final(self).system == old(self).system,
            final(self).markdown == old(self).markdown,
            final(self).expiration == old(self).expiration,
            match old(self).local {
                None => (final(self).local matches Some(v) && v@ == list@),
                Some(prev) => (final(self).local matches Some(v) && v@ == prev@ + list@),
            },
    {
        let mut list = list;
        match &mut self.local {
            None => {
                self.local = Some(list);
            },
            Some(v) => {
                v.append(&mut list);
            },
        }
    }
}

/// The first configured backend carrying the given name, if any.
pub open spec fn first_local(locals: Seq<LLamaSetupView>, name: Seq<char>) -> Option<
    LLamaSetupView,
>
    decreases locals.len(),
{
    if locals.len() == 0 {
        None
    } else if locals[0].name == name {
        Some(locals[0])
    } else {
        first_local(locals.drop_first(), name)
    }
}

proof fn lemma_first_local_skip(locals: Seq<LLamaSetupView>, name: Seq<char>, i: int)
    requires
        0 <= i <= locals.len(),
        forall|k: int| 0 <= k < i ==> locals[k].name != name,
    ensures
        first_local(locals, name) == first_local(locals.skip(i), name),
    decreases i,
{
    if i == 0 {
        assert(locals.skip(0) =~= locals);
    } else {
        assert(locals[0].name != name);
        lemma_first_local_skip(locals, name, i - 1);
        assert(locals.skip(i - 1).len() > 0);
        assert(locals.skip(i - 1)[0] == locals[i - 1]);
        assert(locals.skip(i - 1).drop_first() =~= locals.skip(i));
    }
}

/// Finds the first configured local backend with the given name.
pub fn get_local<'a>(local: &'a Vec<LLamaSetup>, name: &str) -> (r: Option<&'a LLamaSetup>)
    ensures
        r.deep_view() == first_local(local.deep_view(), name@),
{
    let wanted = String::from_str(name);
    let mut i: usize = 0;
    while i < local.len()
        invariant
            i <= local.len(),
            wanted@ == name@,
            forall|k: int| 0 <= k < i ==> local.deep_view()[k].name != name@,
        decreases local.len() - i,
    {
        if local[i].name == wanted {
            proof {
                lemma_first_local_skip(local.deep_view(), name@, i as int);
                assert(local.deep_view().skip(i as int)[0] == local.deep_view()[i as int]);
            }
            return Some(&local[i]);
        }
        i = i + 1;
    }
    proof {
        lemma_first_local_skip(local.deep_view(), name@, local.len() as int);
        assert(local.deep_view().skip(local.len() as int) =~= Seq::<LLamaSetupView>::empty());
    }
    None
}

/// Which backend one turn will run on.
#[derive(Debug, PartialEq)]
pub enum BackendChoice {
    /// The remote streaming API.
    Remote,
    /// The named local backend, with its configuration.
    Local(LLamaSetup),
}

/// The locals a configuration offers: none when the list is absent.
pub open spec fn locals_of(local: Option<Seq<LLamaSetupView>>) -> Seq<LLamaSetupView> {
    match local {
        Some(v) => v,
        None => Seq::empty(),
    }
}

/// Chooses the backend for one turn: the requested named local backend, or
/// the remote backend when none is requested. A requested name that is not
/// configured fails with `BackendNotFound` carrying that name — the choice
/// never falls back to the remote backend.
pub fn select_backend(requested: &Option<String>, local: &Option<Vec<LLamaSetup>>) -> (r: Result<
    BackendChoice,
    ChatError,
>)
    ensures
        match r {
            Ok(BackendChoice::Remote) => (requested.deep_view() is None),
            Ok(BackendChoice::Local(l)) => match requested.deep_view() {
                Some(n) => first_local(locals_of(local.deep_view()), n) == Some(l@),
                None => false,
            },
            Err(e) => match requested.deep_view() {
                Some(n) => (e matches ChatError::BackendNotFound(m) && m@ == n) && (first_local(
                    locals_of(local.deep_view()),
                    n,
                ) is None),
                None => false,
            },
        },
{
    match requested {
        None => Ok(BackendChoice::Remote),
        Some(name) => {
            let found = match local {
                Some(locals) => get_local(locals, name.as_str()),
                None => {
                    proof {
                        assert(locals_of(local.deep_view()) =~= Seq::<LLamaSetupView>::empty());
                    }
                    None
                },
            };
            match found {
                Some(l) => Ok(BackendChoice::Local(l.duplicate())),
                None => Err(ChatError::BackendNotFound(name.clone())),
            }
        },
    }
}

} // verus!
