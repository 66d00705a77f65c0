use libsy::protocol::{ContentBlock, InstructionBlock, LlmRequest, Message, Request, Role};
use libsy::replay::{
    append_note, append_note_preserving_responses, drop_exact_replay, exact_responses_input,
    exact_responses_input_mut, prepend_system_prompt, prepend_system_prompt_preserving_responses,
};
use serde_json::Value;

fn text(text: &str) -> Value {
    Value::String(text.to_string())
}

fn object(members: &[(&str, Value)]) -> Value {
    let mut map = serde_json::Map::new();
    for (key, value) in members {
        map.insert(key.to_string(), value.clone());
    }
    Value::Object(map)
}

fn request(messages: Vec<Message>, body: Option<Value>) -> Request {
    let mut request = Request {
        llm_request: LlmRequest { messages, ..LlmRequest::default() },
        ..Request::default()
    };
    request.llm_request.preservation.requests.responses = body;
    request.llm_request.preservation.requests.others.push(("other".to_string(), text("body")));
    request
}

fn body(request: &Request) -> Option<Value> {
    request.llm_request.preservation.requests.responses.clone()
}

fn others(request: &Request) -> usize {
    request.llm_request.preservation.requests.others.len()
}

fn words(text: &str) -> ContentBlock {
    ContentBlock::Text { text: text.to_string() }
}

#[test]
fn the_responses_conversation_is_read_and_written() {
    let mut held = request(
        Vec::new(),
        Some(object(&[("input", Value::Array(vec![text("a")])), ("stream", Value::Bool(true))])),
    );
    assert_eq!(exact_responses_input(&held), Some(&vec![text("a")]));
    exact_responses_input_mut(&mut held).expect("a conversation").push(text("b"));
    assert_eq!(
        body(&held),
        Some(object(&[
            ("input", Value::Array(vec![text("a"), text("b")])),
            ("stream", Value::Bool(true)),
        ]))
    );
    for none in [None, Some(text("x")), Some(object(&[])), Some(object(&[("input", text("x"))]))] {
        let mut without = request(Vec::new(), none.clone());
        assert_eq!(exact_responses_input(&without), None);
        assert!(exact_responses_input_mut(&mut without).is_none());
        assert_eq!(body(&without), none);
    }
}

#[test]
fn a_note_is_appended_to_both_conversations() {
    let mut noted = request(
        vec![Message::text(Role::User, "task")],
        Some(object(&[("input", Value::Array(vec![text("a")]))])),
    );
    append_note_preserving_responses(&mut noted, "note");
    assert_eq!(
        noted.llm_request.messages,
        vec![Message { role: Role::User, content: vec![words("task"), words("note")] }]
    );
    let item = object(&[
        ("type", text("message")),
        ("role", text("user")),
        (
            "content",
            Value::Array(vec![object(&[("type", text("input_text")), ("text", text("note"))])]),
        ),
    ]);
    assert_eq!(body(&noted), Some(object(&[("input", Value::Array(vec![text("a"), item]))])));
    assert_eq!(others(&noted), 0);
}

#[test]
fn a_note_without_a_responses_conversation_drops_every_body() {
    let mut noted = request(
        vec![Message::text(Role::Assistant, "said")],
        Some(object(&[("input", text("plain"))])),
    );
    append_note_preserving_responses(&mut noted, "note");
    assert_eq!(
        noted.llm_request.messages,
        vec![Message::text(Role::Assistant, "said"), Message::text(Role::User, "note")]
    );
    assert_eq!(body(&noted), None);
    assert_eq!(others(&noted), 0);

    let mut empty = request(Vec::new(), None);
    append_note_preserving_responses(&mut empty, "note");
    assert_eq!(empty.llm_request.messages, vec![Message::text(Role::User, "note")]);
}

#[test]
fn a_plain_note_drops_every_body() {
    let mut noted = request(
        vec![Message::text(Role::User, "task")],
        Some(object(&[("input", Value::Array(Vec::new()))])),
    );
    append_note(&mut noted, "note");
    assert_eq!(noted.llm_request.messages[0].content, vec![words("task"), words("note")]);
    assert_eq!(body(&noted), None);
    assert_eq!(others(&noted), 0);
}

#[test]
fn every_body_can_be_dropped() {
    let mut dropped = request(vec![Message::text(Role::User, "task")], Some(text("body")));
    drop_exact_replay(&mut dropped);
    assert_eq!(body(&dropped), None);
    assert_eq!(others(&dropped), 0);
    assert_eq!(dropped.llm_request.messages, vec![Message::text(Role::User, "task")]);
}

fn system(prompt: &str) -> InstructionBlock {
    InstructionBlock { role: Role::System, content: vec![words(prompt)] }
}

fn developer(text: &str) -> InstructionBlock {
    InstructionBlock { role: Role::Developer, content: vec![words(text)] }
}

#[test]
fn a_system_prompt_precedes_the_instructions_once() {
    let mut prompted = request(Vec::new(), Some(object(&[])));
    prompted.llm_request.instructions.push(developer("P"));
    prepend_system_prompt(&mut prompted, "P");
    assert_eq!(prompted.llm_request.instructions, vec![system("P"), developer("P")]);
    assert_eq!(body(&prompted), None);
    prepend_system_prompt(&mut prompted, "P");
    assert_eq!(prompted.llm_request.instructions.len(), 2);
    prepend_system_prompt(&mut prompted, "Q");
    assert_eq!(
        prompted.llm_request.instructions,
        vec![system("Q"), system("P"), developer("P")]
    );
}

fn instructed(instructions: Option<Value>) -> (Option<Value>, usize) {
    let members = match instructions {
        Some(value) => vec![("input", Value::Array(Vec::new())), ("instructions", value)],
        None => vec![("input", Value::Array(Vec::new()))],
    };
    let mut prompted = request(Vec::new(), Some(object(&members)));
    prepend_system_prompt_preserving_responses(&mut prompted, "P");
    let once = prompted.clone();
    prepend_system_prompt_preserving_responses(&mut prompted, "P");
    assert_eq!(prompted, once);
    assert_eq!(prompted.llm_request.instructions, vec![system("P")]);
    assert_eq!(exact_responses_input(&prompted), Some(&Vec::new()));
    let count = others(&prompted);
    (body(&prompted).and_then(|body| body.get("instructions").cloned()), count)
}

#[test]
fn a_system_prompt_precedes_the_responses_instructions_once() {
    assert_eq!(instructed(None), (Some(text("P")), 0));
    assert_eq!(instructed(Some(text(""))), (Some(text("P")), 0));
    assert_eq!(instructed(Some(Value::Bool(true))), (Some(text("P")), 0));
    assert_eq!(instructed(Some(text("P"))), (Some(text("P")), 0));
    assert_eq!(instructed(Some(text("P\n\nclient"))), (Some(text("P\n\nclient")), 0));
    assert_eq!(instructed(Some(text("client"))), (Some(text("P\n\nclient")), 0));
    assert_eq!(instructed(Some(text("P\nclient"))), (Some(text("P\n\nP\nclient")), 0));
}

#[test]
fn a_system_prompt_drops_bodies_that_cannot_hold_it() {
    for held in [None, Some(text("body")), Some(Value::Array(Vec::new()))] {
        let mut prompted = request(Vec::new(), held);
        prepend_system_prompt_preserving_responses(&mut prompted, "P");
        assert_eq!(prompted.llm_request.instructions, vec![system("P")]);
        assert_eq!(body(&prompted), None);
        assert_eq!(others(&prompted), 0);
    }
}
