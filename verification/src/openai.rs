//! The remote chat backend: holds the API key, the selected model and the
//! optional system prompt, builds the streaming completion request for one
//! turn, and classifies the response. The transport itself — one HTTP POST
//! whose body is consumed by the streaming decoder — is carried out by the
//! caller around these functions.

use vstd::prelude::*;
use vstd::string::StringExecFns;

use crate::assembler::{assembled, build_messages};
use crate::error::ChatError;
use crate::ichat::{IChat, Message};
use crate::setup::{default_model, spec_default_model};

verus! {

/// The serialized body of one streaming completion request.
#[derive(Debug)]
pub struct OpenAICompletion {
    pub model: String,
    pub messages: Vec<Message>,
    pub stream: bool,
}

/// One choice of a non-streaming completion response.
#[derive(Debug)]
pub struct OpenAIChoice {
    pub index: u32,
    pub message: Message,
    pub finish_reason: String,
}

/// The `error` object an error response embeds.
#[derive(Debug, Clone)]
pub struct OpenAIError {
    pub message: Option<String>,
    pub error_type: Option<String>,
    pub param: Option<String>,
    pub code: Option<String>,
}

/// The mathematical value of an `OpenAIError`.
#[verifier::ext_equal]
pub struct ApiErrorView {
    pub message: Option<Seq<char>>,
    pub error_type: Option<Seq<char>>,
    pub param: Option<Seq<char>>,
    pub code: Option<Seq<char>>,
}

impl View for OpenAIError {
    type V = ApiErrorView;

    open spec fn view(&self) -> ApiErrorView {
        ApiErrorView {
            message: self.message.deep_view(),
            error_type: self.error_type.deep_view(),
            param: self.param.deep_view(),
            code: self.code.deep_view(),
        }
    }
}

impl DeepView for OpenAIError {
    type V = ApiErrorView;

    open spec fn deep_view(&self) -> ApiErrorView {
        self@
    }
}

/// The body of a non-streaming completion response.
#[derive(Debug)]
pub struct OpenAIResponse {
    pub id: Option<String>,
    pub object: Option<String>,
    pub created: Option<u32>,
    pub model: Option<String>,
    pub choices: Option<Vec<OpenAIChoice>>,
    pub system_fingerprint: Option<String>,
    pub error: Option<OpenAIError>,
}

/// The remote backend: API key, selected model, optional system prompt.
#[derive(Debug)]
pub struct OpenAI {
    pub apikey: String,
    pub model: String,
    pub system: Option<String>,
}

impl IChat for OpenAI {
    open spec fn chat_name(&self) -> Seq<char> {
        "openai"@
    }

    open spec fn system_of(&self) -> Option<Seq<char>> {
        self.system.deep_view()
    }

    open spec fn model_of(&self) -> Seq<char> {
        self.model@
    }

    fn get_name(&mut self) -> (r: &str) {
        "openai"
    }

    fn set_system(&mut self, system: String)
        ensures
            final(self).apikey == old(self).apikey,
            final(self).model == old(self).model,
    {
        self.system = Some(system);
    }

    fn set_model(&mut self, model: String)
        ensures
            final(self).model_of() == model@,
            final(self).apikey == old(self).apikey,
            final(self).system == old(self).system,
    {
        self.model = model;
    }
}

impl OpenAI {
    /// A remote backend over the given key, with the default model and no
    /// system prompt.
    pub fn new(apikey: String) -> (c: OpenAI)
        ensures
            c.apikey@ == apikey@,
            c.model@ == spec_default_model(),
            (c.system is None),
    {
        OpenAI { apikey, model: String::from_str(default_model()), system: None }
    }

    /// Builds the request for one turn: the assembled message list, the
    /// selected model, and the streaming flag enabled.
    pub fn completion_request(&self, prompt: &str, history: &Vec<Message>) -> (c: OpenAICompletion)
        ensures
            c.model@ == self.model@,
            c.stream == true,
            c.messages.deep_view() == assembled(
                self.system.deep_view(),
                history.deep_view(),
                prompt@,
            ),
    {
        OpenAICompletion {
            model: self.model.clone(),
            stream: true,
            messages: build_messages(&self.system, history, prompt),
        }
    }
}

/// What the body of an error response parses to: the embedded `error`
/// object, or nothing when the body is not valid JSON carrying one. The
/// result is a function of the bytes alone.
pub uninterp spec fn api_error_of(bytes: Seq<u8>) -> Option<ApiErrorView>;

/// Relies on serde_json::from_slice: extracts the `error` object embedded
/// in an error response body. What the body parses to depends on its bytes
/// alone; `api_error_of` names that result.
#[verifier::external_body]
fn parse_api_error(bytes: &Vec<u8>) -> (r: Option<OpenAIError>)
    ensures
        r.deep_view() == api_error_of(bytes@),
{
    let v: serde_json::Value = match serde_json::from_slice(bytes) {
        Ok(v) => v,
        Err(_) => return None,
    };
    let e = v.get("error")?;
    Some(OpenAIError {
        message: e.get("message").and_then(serde_json::Value::as_str).map(str::to_string),
        error_type: e.get("type").and_then(serde_json::Value::as_str).map(str::to_string),
        param: e.get("param").and_then(serde_json::Value::as_str).map(str::to_string),
        code: e.get("code").and_then(serde_json::Value::as_str).map(str::to_string),
    })
}

/// The text a failed response surfaces: the embedded server-side message
/// when one is present, a fixed line otherwise.
pub open spec fn remote_error_text(body: Seq<u8>) -> Seq<char> {
    match api_error_of(body) {
        Some(e) => match e.message {
            Some(m) => m,
            None => "remote api error"@,
        },
        None => "remote api error"@,
    }
}

/// Classifies one response by its status: success below 400; at or above
/// 400 the turn fails with `RemoteAPI` carrying the server-side message
/// embedded in the body, when there is one.
pub fn classify_response(status: u16, body: &Vec<u8>) -> (r: Result<(), ChatError>)
    ensures
        status < 400 <==> (r is Ok),
        match r {
            Ok(_) => status < 400,
            Err(e) => (e matches ChatError::RemoteAPI(m) && m@ == remote_error_text(body@)),
        },
{
    if status < 400 {
        return Ok(());
    }
    match parse_api_error(body) {
        Some(e) => match e.message {
            Some(m) => Err(ChatError::RemoteAPI(m)),
            None => Err(ChatError::RemoteAPI(String::from_str("remote api error"))),
        },
        None => Err(ChatError::RemoteAPI(String::from_str("remote api error"))),
    }
}

/// The outcome of a remote turn from its decoded answer: a well-formed
/// response that contributed no text at all is an empty result.
pub fn finalize_answer(answer: String) -> (r: Result<String, ChatError>)
    ensures
        match r {
            Ok(s) => answer@.len() > 0 && s@ == answer@,
            Err(e) => answer@.len() == 0 && e == ChatError::EmptyResult,
        },
{
    if answer.as_str().is_empty() {
        Err(ChatError::EmptyResult)
    } else {
        Ok(answer)
    }
}

} // verus!
