use aid::assembler::build_messages;
use aid::chatgpt::ChatGPT;
use aid::displayer::Displayer;
use aid::error::{ChatError, ErrorMessage};
use aid::ichat::{IChat, Message, Role};
use aid::llama::LLamaChat;
use aid::openai::OpenAI;
use aid::options::CommandLine;
use aid::setup::{get_local, select_backend, BackendChoice, LLamaSetup, Setup, DEFAULT_EXPIRATION};

fn turn(user: &str, assistant: &str) -> Vec<Message> {
    vec![
        Message::new(Role::User, String::from(user)),
        Message::new(Role::Assistant, String::from(assistant)),
    ]
}

fn local(name: &str) -> LLamaSetup {
    LLamaSetup {
        name: String::from(name),
        model: String::from("/models/m.gguf"),
        prompt: None,
        history: None,
        n_gpu_layers: None,
        tokens: None,
        threads: None,
        top_k: None,
    }
}

#[test]
fn roles_serialize_to_fixed_tokens() {
    assert_eq!(Role::User.as_str(), "user");
    assert_eq!(Role::System.as_str(), "system");
    assert_eq!(Role::Assistant.as_str(), "assistant");
    assert_eq!(Role::Assistant.to_string(), "assistant");
    assert_eq!(Role::User, Role::User);
    assert_ne!(Role::User, Role::Assistant);
}

#[test]
fn assembler_exact_scenario() {
    let history = turn("u1", "a1");
    let out = build_messages(&Some(String::from("S")), &history, "p2");
    let expect = vec![
        Message::new(Role::System, String::from("S")),
        Message::new(Role::User, String::from("u1")),
        Message::new(Role::Assistant, String::from("a1")),
        Message::new(Role::User, String::from("p2")),
    ];
    assert_eq!(out, expect);
}

#[test]
fn assembler_without_system_entry() {
    let history = turn("u1", "a1");
    let expect = vec![
        Message::new(Role::User, String::from("u1")),
        Message::new(Role::Assistant, String::from("a1")),
        Message::new(Role::User, String::from("p2")),
    ];
    assert_eq!(build_messages(&None, &history, "p2"), expect);
    assert_eq!(build_messages(&Some(String::new()), &history, "p2"), expect);
}

#[test]
fn openai_defaults_and_setters() {
    let mut c = OpenAI::new(String::from("key"));
    assert_eq!(c.apikey, "key");
    assert_eq!(c.model, "gpt-4-1106-preview");
    assert!(c.system.is_none());
    assert_eq!(c.get_name(), "openai");
    c.set_model(String::from("gpt-x"));
    c.set_system(String::from("sys"));
    assert_eq!(c.model, "gpt-x");
    assert_eq!(c.system.as_deref(), Some("sys"));
}

#[test]
fn completion_request_is_streaming() {
    let mut c = OpenAI::new(String::from("key"));
    c.set_system(String::from("S"));
    let req = c.completion_request("p2", &turn("u1", "a1"));
    assert!(req.stream);
    assert_eq!(req.model, "gpt-4-1106-preview");
    assert_eq!(req.messages.len(), 4);
    assert_eq!(req.messages[0].role, Role::System);
    assert_eq!(req.messages[3].content, "p2");
}

#[test]
fn chatgpt_handle_defaults() {
    let mut c = ChatGPT::new(String::from("key"));
    assert_eq!(c.get_name(), "chatgpt");
    assert_eq!(c.model, "gpt-4-1106-preview");
}

#[test]
fn llama_prompt_without_template_is_the_prompt() {
    let chat = LLamaChat::new(&local("v"), false);
    assert_eq!(chat.get_prompt("hello", &Vec::new()), "hello");
}

#[test]
fn llama_prompt_substitutes_template() {
    let mut setup = local("v");
    setup.prompt = Some(String::from("S<{system}> H<{history}> P<{prompt}>"));
    setup.history = Some(String::from("U:{user} A:{assistant};"));
    let mut chat = LLamaChat::new(&setup, false);
    chat.set_system(String::from("sys"));
    let mut history = turn("q1", "r1");
    history.extend(turn("q2", "r2"));
    let p = chat.get_prompt("ask", &history);
    assert_eq!(p, "S<sys> H<U:q1 A:r1;U:q2 A:r2;> P<ask>");
}

#[test]
fn llama_prompt_scrubs_unfilled_placeholders() {
    let mut setup = local("v");
    setup.prompt = Some(String::from("{system}{history}{prompt}"));
    setup.history = Some(String::from("U:{user} A:{assistant};"));
    let chat = LLamaChat::new(&setup, false);
    // No system prompt, and a dangling user message without an answer.
    let history = vec![Message::new(Role::User, String::from("q1"))];
    let p = chat.get_prompt("ask", &history);
    assert_eq!(p, "U:q1 A:;ask");
}

#[test]
fn llama_ignores_set_model() {
    let mut chat = LLamaChat::new(&local("v"), true);
    chat.set_model(String::from("other"));
    assert_eq!(chat.setup.model, "/models/m.gguf");
    assert_eq!(chat.get_name(), "llama");
}

#[test]
fn lookup_finds_first_match() {
    let locals = vec![local("a"), local("b"), local("a")];
    let found = get_local(&locals, "b").unwrap();
    assert_eq!(found.name, "b");
    assert!(get_local(&locals, "c").is_none());
}

#[test]
fn missing_local_backend_is_an_error_not_a_fallback() {
    let locals = Some(vec![local("a"), local("b")]);
    let r = select_backend(&Some(String::from("missing")), &locals);
    assert_eq!(r, Err(ChatError::BackendNotFound(String::from("missing"))));

    // Even a configuration with no local section at all must not fall
    // through to the remote backend.
    let r = select_backend(&Some(String::from("missing")), &None);
    assert_eq!(r, Err(ChatError::BackendNotFound(String::from("missing"))));
}

#[test]
fn requested_local_backend_is_chosen() {
    let locals = Some(vec![local("a"), local("b")]);
    let r = select_backend(&Some(String::from("b")), &locals).unwrap();
    match r {
        BackendChoice::Local(l) => assert_eq!(l.name, "b"),
        BackendChoice::Remote => panic!("expected the named local backend"),
    }
    let r = select_backend(&None, &locals).unwrap();
    assert_eq!(r, BackendChoice::Remote);
}

#[test]
fn setup_defaults() {
    let s = Setup::default();
    assert_eq!(s.apikey, "<enter your openai api key here>");
    assert_eq!(s.get_model(), "gpt-4-1106-preview");
    assert_eq!(s.get_system(), "Your are a Linux assistant and a coder.");
    assert!(s.get_markdown());
    assert_eq!(s.get_expiration(), DEFAULT_EXPIRATION);
    assert_eq!(s.get_expiration(), 86400);
    assert!(s.apikey_missing());
}

#[test]
fn setup_getters_use_configured_values() {
    let s = Setup {
        apikey: String::from("k"),
        model: Some(String::from("m")),
        system: Some(String::from("s")),
        markdown: Some(false),
        expiration: Some(60),
        local: None,
    };
    assert_eq!(s.get_model(), "m");
    assert_eq!(s.get_system(), "s");
    assert!(!s.get_markdown());
    assert_eq!(s.get_expiration(), 60);
    assert!(!s.apikey_missing());
    let empty = Setup { apikey: String::new(), ..s };
    assert!(empty.apikey_missing());
}

#[test]
fn add_locals_extends_the_list() {
    let mut s = Setup::default();
    s.add_locals(vec![local("a")]);
    s.add_locals(vec![local("b"), local("c")]);
    let names: Vec<String> =
        s.local.unwrap().into_iter().map(|l| l.name).collect();
    assert_eq!(names, vec!["a", "b", "c"]);
}

#[test]
fn effective_markdown_toggles_the_default() {
    assert!(!CommandLine::effective_markdown(true, true));
    assert!(CommandLine::effective_markdown(true, false));
    assert!(CommandLine::effective_markdown(false, true));
    assert!(!CommandLine::effective_markdown(false, false));
}

#[test]
fn displayer_starts_clean() {
    let d = Displayer::new(true);
    assert!(d.markdown);
    assert!(d.buffer.is_empty());
    assert!(!d.codeblock);
}

#[test]
fn error_message_carries_its_text() {
    let e = ErrorMessage::new("it broke");
    assert_eq!(e.text(), "it broke");
}

#[test]
fn chat_error_messages() {
    assert_eq!(ChatError::Network.message(), "network failure");
    assert_eq!(ChatError::Parse.message(), "malformed response");
    assert_eq!(ChatError::EmptyResult.message(), "empty result");
    assert_eq!(ChatError::RemoteAPI(String::from("why")).message(), "why");
    assert_eq!(ChatError::BackendNotFound(String::from("x")).message(), "x");
}
