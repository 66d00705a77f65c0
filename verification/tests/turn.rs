use libsy::error::{LibsyError, LlmClientError};
use libsy::protocol::{
    AggLlmResponse, ContentBlock, FormatId, LlmResponse, LlmResponseChunk, LlmResponseStreamEvent,
    Metadata, PreservedEvent, ResponseOutput, Role, StopReason, ToolCall,
};
use libsy::turn::{
    buffer_turn, has_tool_call, has_tool_use, is_final_answer, reasoning_text, visible_text,
    GatedTurn, TurnBuffer,
};
use serde_json::Value;

fn text(text: &str) -> Value {
    Value::String(text.to_string())
}

fn object(members: &[(&str, Value)]) -> Value {
    let mut map = serde_json::Map::new();
    for (key, value) in members {
        map.insert(key.to_string(), value.clone());
    }
    Value::Object(map)
}

fn answer(phase: &str) -> Value {
    object(&[
        ("id", text("resp-final")),
        (
            "output",
            Value::Array(vec![object(&[
                ("type", text("message")),
                ("role", text("assistant")),
                ("phase", text(phase)),
                (
                    "content",
                    Value::Array(vec![object(&[
                        ("type", text("output_text")),
                        ("text", text("finished")),
                    ])]),
                ),
            ])]),
        ),
    ])
}

fn final_answer_response() -> Value {
    answer("final_answer")
}

fn preserved(source: FormatId, raw: Value, normalized: Vec<LlmResponseChunk>) -> LlmResponseStreamEvent {
    LlmResponseStreamEvent { normalized, preservation: Some(PreservedEvent { source, raw }) }
}

fn plain(chunk: LlmResponseChunk) -> LlmResponseStreamEvent {
    LlmResponseStreamEvent { normalized: vec![chunk], preservation: None }
}

fn delta(words: &str) -> LlmResponseChunk {
    LlmResponseChunk::TextDelta { index: 0, text: words.to_string() }
}

#[test]
fn buffered_responses_final_answer_is_detected() {
    let mut agg = AggLlmResponse::default();
    agg.preservation.responses.responses = Some(final_answer_response());
    assert!(is_final_answer(&agg));
}

#[test]
fn streamed_responses_final_answer_is_detected() {
    let event = preserved(
        FormatId::OpenAiResponses,
        object(&[("type", text("response.completed")), ("response", final_answer_response())]),
        vec![
            LlmResponseChunk::MessageStart {
                id: Some("resp-final".to_string()),
                model: Some("executor".to_string()),
            },
            LlmResponseChunk::TextDelta { index: 0, text: "finished".to_string() },
            LlmResponseChunk::MessageStop { reason: None },
        ],
    );
    let buffer = buffer_turn("executor", vec![Ok(event)]).expect("stream buffers");
    let turn = buffer.finish(AggLlmResponse::default(), None);
    assert!(is_final_answer(&turn.agg));
}

#[test]
fn only_a_final_message_is_a_final_answer() {
    assert!(!is_final_answer(&AggLlmResponse::default()));
    let mut agg = AggLlmResponse::default();
    agg.preservation.responses.responses = Some(answer("commentary"));
    assert!(!is_final_answer(&agg));
    agg.preservation.responses.responses = Some(object(&[("output", text("final_answer"))]));
    assert!(!is_final_answer(&agg));
    agg.preservation.responses.responses = Some(object(&[(
        "output",
        Value::Array(vec![object(&[
            ("type", text("reasoning")),
            ("phase", text("final_answer")),
        ])]),
    )]));
    assert!(!is_final_answer(&agg));
    agg.preservation.responses.responses = Some(object(&[(
        "output",
        Value::Array(vec![text("x"), answer("x"), final_item()]),
    )]));
    assert!(is_final_answer(&agg));
    let mut other = AggLlmResponse::default();
    other.preservation.responses.others.push(("anthropic".to_string(), final_answer_response()));
    assert!(!is_final_answer(&other));
}

fn final_item() -> Value {
    object(&[("type", text("message")), ("phase", text("final_answer"))])
}

fn failed(source: LlmClientError) -> Option<LibsyError> {
    Some(LibsyError::ClientCall { target: "executor".to_string(), source })
}

#[test]
fn the_first_failure_fails_the_turn() {
    let decode = plain(LlmResponseChunk::DecodeError { message: "bad json".to_string() });
    let broken = plain(LlmResponseChunk::StreamError { message: "overloaded".to_string() });
    let lost = LlmClientError::Other("connection lost".to_string());
    assert_eq!(
        buffer_turn("executor", vec![Ok(plain(delta("a"))), Ok(decode)]).err(),
        failed(LlmClientError::ResponseTranslation("bad json".to_string()))
    );
    assert_eq!(
        buffer_turn("executor", vec![Ok(broken), Err(lost)]).err(),
        failed(LlmClientError::UpstreamHttp { status: 502, body: "overloaded".to_string() })
    );
    assert_eq!(
        buffer_turn(
            "executor",
            vec![
                Ok(plain(delta("a"))),
                Err(LlmClientError::Other("connection lost".to_string())),
                Ok(plain(LlmResponseChunk::DecodeError { message: "late".to_string() })),
            ],
        )
        .err(),
        failed(LlmClientError::Other("connection lost".to_string()))
    );
    let two = LlmResponseStreamEvent {
        normalized: vec![
            delta("a"),
            LlmResponseChunk::StreamError { message: "first".to_string() },
            LlmResponseChunk::DecodeError { message: "second".to_string() },
        ],
        preservation: None,
    };
    assert_eq!(
        buffer_turn("executor", vec![Ok(two)]).err(),
        failed(LlmClientError::UpstreamHttp { status: 502, body: "first".to_string() })
    );
}

#[test]
fn a_failed_item_is_not_held() {
    let mut buffer = TurnBuffer::new();
    assert_eq!(buffer.push("executor", Ok(plain(delta("a")))), Ok(()));
    let broken = plain(LlmResponseChunk::StreamError { message: "x".to_string() });
    assert!(buffer.push("executor", Ok(broken)).is_err());
    let turn = buffer.finish(AggLlmResponse::default(), None);
    assert_eq!(turn.events, Some(vec![plain(delta("a"))]));
}

#[test]
fn a_streamed_turn_is_replayed_verbatim() {
    let signed = || {
        preserved(
            FormatId::Other("anthropic".to_string()),
            object(&[("signature", text("sig"))]),
            vec![delta("a"), LlmResponseChunk::Other(text("usage"))],
        )
    };
    let metadata = || Metadata { session_id: Some("s".to_string()), ..Metadata::default() };
    let buffer = buffer_turn("executor", vec![Ok(signed()), Ok(plain(delta("b")))]).expect("ok");
    let response = buffer.finish(AggLlmResponse::default(), Some(metadata())).into_response();
    assert_eq!(response.llm_response, LlmResponse::Stream(vec![signed(), plain(delta("b"))]));
    assert_eq!(response.metadata, Some(metadata()));
}

#[test]
fn a_complete_turn_is_released_as_it_was() {
    let agg = || AggLlmResponse { detail: text("usage"), ..AggLlmResponse::default() };
    let turn = GatedTurn::complete(agg(), None);
    assert_eq!(turn.events, None);
    assert_eq!(turn.into_response().llm_response, LlmResponse::Agg(agg()));
}

#[test]
fn the_last_complete_body_is_preserved() {
    let event = |body: Value| {
        Ok(preserved(FormatId::OpenAiResponses, object(&[("response", body)]), Vec::new()))
    };
    let foreign = Ok(preserved(
        FormatId::Other("other".to_string()),
        object(&[("response", final_answer_response())]),
        Vec::new(),
    ));
    let items = vec![
        event(final_answer_response()),
        event(answer("commentary")),
        event(object(&[("id", text("unfinished"))])),
        foreign,
        Ok(plain(delta("a"))),
    ];
    let turn =
        buffer_turn("executor", items).expect("ok").finish(AggLlmResponse::default(), None);
    assert_eq!(turn.agg.preservation.responses.responses, Some(answer("commentary")));

    let mut agg = AggLlmResponse::default();
    agg.preservation.responses.responses = Some(text("kept"));
    let turn = buffer_turn("executor", vec![Ok(plain(delta("a")))]).expect("ok").finish(agg, None);
    assert_eq!(turn.agg.preservation.responses.responses, Some(text("kept")));
}

fn output(content: Vec<ContentBlock>, stop_reason: Option<StopReason>) -> ResponseOutput {
    ResponseOutput { role: Role::Assistant, content, stop_reason }
}

fn response(outputs: Vec<ResponseOutput>) -> AggLlmResponse {
    AggLlmResponse { outputs, ..AggLlmResponse::default() }
}

fn words(text: &str) -> ContentBlock {
    ContentBlock::Text { text: text.to_string() }
}

fn thought(text: &str) -> ContentBlock {
    ContentBlock::Reasoning { text: text.to_string(), detail: Value::Null }
}

fn call() -> ContentBlock {
    ContentBlock::ToolCall(ToolCall {
        id: "c".to_string(),
        name: "ls".to_string(),
        arguments: Value::Null,
        mutating: false,
    })
}

#[test]
fn tool_use_shows_on_either_signal() {
    let stopped = response(vec![output(vec![words("a")], Some(StopReason::ToolUse))]);
    assert!(has_tool_use(&stopped));
    assert!(!has_tool_call(&stopped));
    let mislabelled = response(vec![
        output(Vec::new(), None),
        output(vec![words("a"), call()], Some(StopReason::Other("stop".to_string()))),
    ]);
    assert!(has_tool_use(&mislabelled));
    assert!(has_tool_call(&mislabelled));
    let plain = response(vec![output(vec![words("a")], None)]);
    assert!(!has_tool_use(&plain));
    assert!(!has_tool_call(&plain));
    assert!(!has_tool_use(&AggLlmResponse::default()));
}

#[test]
fn texts_are_joined_across_outputs() {
    let turn = response(vec![
        output(vec![thought("hm"), words("one"), call(), words("two")], None),
        output(vec![thought("so"), words("three")], None),
    ]);
    assert_eq!(visible_text(&turn), Some("one\ntwo\nthree".to_string()));
    assert_eq!(reasoning_text(&turn), Some("hm\nso".to_string()));
}

#[test]
fn empty_text_is_none() {
    assert_eq!(visible_text(&AggLlmResponse::default()), None);
    assert_eq!(reasoning_text(&AggLlmResponse::default()), None);
    let empty = response(vec![output(vec![words(""), thought("")], None)]);
    assert_eq!(visible_text(&empty), None);
    assert_eq!(reasoning_text(&empty), None);
    let two = response(vec![output(vec![words(""), words("")], None)]);
    assert_eq!(visible_text(&two), Some("\n".to_string()));
}
