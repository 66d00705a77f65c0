use libsy::error::{algorithm_error, LibsyError, LlmClientError};
use libsy::protocol::{
    ContentBlock, LlmRequest, Message, Metadata, Request, Role, RoutingIdentity, ToolCall,
    ToolChoice, ToolResult,
};
use libsy::sessions::IdSet;
use serde_json::Value;

fn text(text: &str) -> Value {
    Value::String(text.to_string())
}

fn message() -> Message {
    Message {
        role: Role::Assistant,
        content: vec![
            ContentBlock::Text { text: "said".to_string() },
            ContentBlock::Reasoning { text: "thought".to_string(), detail: text("signature") },
            ContentBlock::ToolCall(ToolCall {
                id: "c".to_string(),
                name: "ls".to_string(),
                arguments: serde_json::from_str("{\"n\": 1, \"list\": [1.5, null]}").expect("json"),
                mutating: false,
            }),
            ContentBlock::ToolResult(ToolResult {
                tool_call_id: "c".to_string(),
                content: vec![ContentBlock::Other(text("image"))],
                is_error: Some(true),
            }),
        ],
    }
}

#[test]
fn a_copy_of_a_request_holds_the_same() {
    let request = Request {
        llm_request: LlmRequest {
            model: Some("m".to_string()),
            messages: vec![message()],
            stream: true,
            tool_choice: Some(ToolChoice::Other(text("auto"))),
            detail: text("tools"),
            ..LlmRequest::default()
        },
        metadata: Some(Metadata {
            session_id: Some("s".to_string()),
            session_final: Some(true),
            detail: text("headers"),
        }),
        identity: Some(RoutingIdentity { key: "s".to_string() }),
        detail: text("route"),
    };
    assert_eq!(request.clone(), request);
    assert!(request.is_final());
    assert!(!Request::default().is_final());
}

#[test]
fn messages_are_the_same_where_everything_is() {
    assert!(message().same(&message()));
    let mut other = message();
    other.role = Role::User;
    assert!(!message().same(&other));
    let mut other = message();
    other.content.pop();
    assert!(!message().same(&other));
    for index in 0..4 {
        let mut other = message();
        match &mut other.content[index] {
            ContentBlock::Text { text } => text.push('!'),
            ContentBlock::Reasoning { detail, .. } => *detail = Value::Null,
            ContentBlock::ToolCall(call) => call.arguments = Value::Null,
            ContentBlock::ToolResult(result) => result.content.clear(),
            ContentBlock::Other(_) => unreachable!(),
        }
        assert!(!message().same(&other));
    }
}

#[test]
fn a_set_of_ids_holds_what_was_inserted() {
    let mut ids = IdSet::new();
    assert!(!ids.contains("a"));
    ids.insert("a");
    ids.insert("a");
    assert!(ids.contains("a"));
    assert!(!ids.contains("A"));
    let mut more = IdSet::new();
    more.insert("a");
    more.insert("b");
    assert!(ids.is_subset(&more));
    assert!(!more.is_subset(&ids));
    assert!(IdSet::new().is_subset(&ids));
}

#[test]
fn errors_carry_what_went_wrong() {
    assert_eq!(
        algorithm_error("no".to_string()),
        LibsyError::AlgorithmError { message: "no".to_string() }
    );
    let lost = || LlmClientError::Other("lost".to_string());
    assert_eq!(
        LibsyError::client_call("m".to_string(), lost()),
        LibsyError::ClientCall { target: "m".to_string(), source: lost() }
    );
}
