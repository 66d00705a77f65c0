use libsy::blocks::message_has_mutation;
use libsy::compaction::{
    compact_messages, compact_responses_input, raw_item_call, raw_item_is_mutation,
    selected_message_call_ids,
};
use libsy::protocol::{ContentBlock, Message, Role, ToolCall, ToolResult};
use serde_json::Value;

fn text(text: &str) -> Value {
    Value::String(text.to_string())
}

fn object(members: &[(&str, Value)]) -> Value {
    let mut map = serde_json::Map::new();
    for (key, value) in members {
        map.insert(key.to_string(), value.clone());
    }
    Value::Object(map)
}

fn call(id: &str, mutating: bool) -> ContentBlock {
    ContentBlock::ToolCall(ToolCall {
        id: id.to_string(),
        name: "tool".to_string(),
        arguments: Value::Null,
        mutating,
    })
}

fn result(id: &str) -> ContentBlock {
    ContentBlock::ToolResult(ToolResult {
        tool_call_id: id.to_string(),
        content: Vec::new(),
        is_error: None,
    })
}

fn words(text: &str) -> ContentBlock {
    ContentBlock::Text { text: text.to_string() }
}

fn assistant(content: Vec<ContentBlock>) -> Message {
    Message { role: Role::Assistant, content }
}

fn tool(content: Vec<ContentBlock>) -> Message {
    Message { role: Role::Tool, content }
}

#[test]
fn a_message_edits_where_one_of_its_calls_does() {
    assert!(!message_has_mutation(&assistant(vec![words("a"), call("r", false)])));
    assert!(message_has_mutation(&assistant(vec![words("a"), call("r", false), call("e", true)])));
    assert!(!message_has_mutation(&assistant(Vec::new())));
}

#[test]
fn a_conversation_without_an_edit_is_unchanged() {
    let mut messages = vec![Message::text(Role::User, "task")];
    for index in 0..9 {
        messages.push(assistant(vec![call(&format!("r{index}"), false)]));
        messages.push(assistant(Vec::new()));
    }
    assert_eq!(compact_messages(&messages), messages);
    assert_eq!(compact_messages(&[]), Vec::new());
}

fn long() -> Vec<Message> {
    let mut messages = vec![
        Message::text(Role::User, "task"),
        assistant(vec![words("look"), call("plan", false)]),
        tool(vec![result("plan")]),
        assistant(vec![words("now"), call("first", true), call("second", true)]),
        tool(vec![result("first"), result("second"), words("both ran")]),
        Message::text(Role::Assistant, "chatter"),
    ];
    for index in 0..7 {
        messages.push(assistant(vec![words("hm"), call(&format!("r{index}"), false)]));
        messages.push(tool(vec![result(&format!("r{index}"))]));
    }
    messages
}

#[test]
fn the_prefix_the_first_edit_and_the_recent_calls_stay() {
    let messages = long();
    let mut expected = messages[..3].to_vec();
    expected.push(assistant(vec![words("now"), call("first", true)]));
    expected.push(tool(vec![result("first")]));
    expected.extend_from_slice(&messages[8..]);
    assert_eq!(compact_messages(&messages), expected);
    assert_eq!(compact_messages(&expected), expected);
    let selected = selected_message_call_ids(&messages[3..]);
    for id in ["first", "r1", "r2", "r3", "r4", "r5", "r6"] {
        assert!(selected.contains(id));
    }
    for id in ["plan", "second", "r0"] {
        assert!(!selected.contains(id));
    }
}

#[test]
fn six_calls_are_recent() {
    let messages: Vec<Message> =
        (0..8).map(|index| assistant(vec![call(&format!("r{index}"), index == 0)])).collect();
    let short = compact_messages(&messages);
    assert_eq!(short.len(), 7);
    assert_eq!(short[0], messages[0]);
    assert_eq!(short[1..], messages[2..]);
}

#[test]
fn a_repeated_id_stays_wherever_it_stands() {
    let mut messages = vec![assistant(vec![call("edit", true)])];
    messages.push(assistant(vec![call("again", false)]));
    for index in 0..5 {
        messages.push(assistant(vec![call(&format!("r{index}"), false)]));
    }
    messages.push(assistant(vec![call("again", false)]));
    assert_eq!(compact_messages(&messages), messages);
}

fn raw(kind: &str, id: Option<&str>, name: Option<&str>) -> Value {
    let mut members = vec![("type", text(kind))];
    if let Some(id) = id {
        members.push(("call_id", text(id)));
    }
    if let Some(name) = name {
        members.push(("name", text(name)));
    }
    object(&members)
}

#[test]
fn a_raw_call_has_a_name_and_arguments() {
    let item = object(&[
        ("type", text("function_call")),
        ("name", text("apply_patch")),
        ("arguments", text("{}")),
    ]);
    assert_eq!(raw_item_call(&item), Some(("apply_patch", Some(&text("{}")))));
    let bare = raw("function_call", None, Some("ls"));
    assert_eq!(raw_item_call(&bare), Some(("ls", None)));
    assert_eq!(raw_item_call(&raw("function_call", Some("c"), None)), None);
    assert_eq!(raw_item_call(&raw("message", Some("c"), Some("ls"))), None);
    assert_eq!(raw_item_call(&text("function_call")), None);
    assert!(raw_item_is_mutation(&bare, true));
    assert!(!raw_item_is_mutation(&bare, false));
    assert!(!raw_item_is_mutation(&raw("message", None, Some("ls")), true));
}

#[test]
fn raw_items_without_an_edit_are_unchanged() {
    let items = vec![
        raw("message", None, None),
        raw("function_call", Some("r"), Some("ls")),
        raw("reasoning", None, None),
    ];
    assert_eq!(compact_responses_input(&items, &vec![true, false, true]), items);
    assert_eq!(compact_responses_input(&items, &Vec::new()), items);
}

#[test]
fn after_a_raw_edit_only_selected_calls_and_results_stay() {
    let items = vec![
        raw("message", None, None),
        raw("function_call", Some("edit"), Some("apply_patch")),
        raw("message", None, None),
        raw("function_call_output", Some("edit"), None),
        raw("function_call_output", Some("unknown"), None),
        raw("function_call", None, Some("ls")),
        raw("reasoning", Some("edit"), None),
        raw("function_call", Some("read"), None),
    ];
    let verdicts = vec![false, true];
    let short = compact_responses_input(&items, &verdicts);
    let expected =
        vec![items[0].clone(), items[1].clone(), items[3].clone(), items[7].clone()];
    assert_eq!(short, expected);
    assert_eq!(compact_responses_input(&short, &verdicts), short);
}

#[test]
fn a_raw_edit_without_an_id_does_not_stay() {
    let items = vec![
        raw("function_call", None, Some("apply_patch")),
        raw("function_call", Some("read"), Some("ls")),
    ];
    let short = compact_responses_input(&items, &vec![true, false]);
    assert_eq!(short, vec![items[1].clone()]);
}
