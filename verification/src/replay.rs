//! The preserved wire bodies of a request, kept in step with the request.

use crate::json::{
    json_list, json_of, list_value, map_insert, map_new, object_value, text_value,
    value_as_array, value_as_array_mut, value_as_object_mut, value_as_str, value_get,
    value_get_mut, Json,
};
use crate::protocol::{
    block_view, blocks_view, instructions_view, messages_view, no_bodies, text_message, BlockView,
    BodiesView, ContentBlock, InstructionBlock, Message, MessageView, Request, RequestView, Role,
};
use crate::text::starts_with;
use serde_json::Value;
use vstd::prelude::*;

verus! {

/// The items of the conversation in the preserved OpenAI Responses body.
pub fn exact_responses_input(request: &Request) -> (input: Option<&Vec<Value>>)
    ensures
        match input {
            Some(items) => request@.responses_input() == Some(json_list(items@)),
            None => request@.responses_input() is None,
        },
{
    match &request.llm_request.preservation.requests.responses {
        Some(body) => match value_get(body, "input") {
            Some(input) => value_as_array(input),
            None => None,
        },
        None => None,
    }
}

/// The items of the conversation in the preserved OpenAI Responses body, to
/// be written to. Nothing else of the request changes.
pub fn exact_responses_input_mut(request: &mut Request) -> (input: Option<&mut Vec<Value>>)
    ensures
        match input {
            Some(items) => old(request)@.responses_input() == Some(json_list(items@))
                && final(request)@ == old(request)@.with_responses_input(json_list(final(items)@)),
            None => old(request)@.responses_input() is None && final(request)@ == old(request)@,
        },
{
    match &mut request.llm_request.preservation.requests.responses {
        Some(body) => {
            let ghost whole = *body;
            match value_get_mut(body, "input") {
                Some(input) => {
                    let ghost held = json_of(*input);
                    let items = value_as_array_mut(input);
                    proof {
                        if items is None {
                            let members = json_of(whole)->Object_0;
                            assert(members.insert("input"@, held) =~= members);
                        }
                    }
                    items
                },
                None => None,
            }
        },
        None => None,
    }
}

/// Drops every preserved body, so that the request is not replayed as it came.
pub fn drop_exact_replay(request: &mut Request)
    ensures
        final(request)@ == (RequestView { requests: no_bodies(), ..old(request)@ }),
{
    request.llm_request.preservation.requests.responses = None;
    request.llm_request.preservation.requests.others.clear();
    assert(request@.requests.others =~= Seq::empty());
}

/// Drops every preserved body but the one in the OpenAI Responses format.
fn retain_responses(request: &mut Request)
    ensures
        final(request)@ == (RequestView {
            requests: BodiesView {
                responses: old(request)@.requests.responses,
                others: Seq::empty(),
            },
            ..old(request)@
        }),
{
    request.llm_request.preservation.requests.others.clear();
    assert(request@.requests.others =~= Seq::empty());
}

/// The messages with a note from the user at the end: in the last message
/// where that is the user's, in a message of its own otherwise.
pub open spec fn noted_messages(messages: Seq<MessageView>, note: Seq<char>) -> Seq<MessageView> {
    if messages.len() > 0 && messages.last().role == Role::User {
        messages.drop_last().push(
            MessageView {
                role: Role::User,
                content: messages.last().content.push(BlockView::Text { text: note }),
            },
        )
    } else {
        messages.push(text_message(Role::User, note))
    }
}

/// A text of the user in the OpenAI Responses format.
pub open spec fn user_text_item(text: Seq<char>) -> Json {
    let part = Json::Object(
        Map::empty().insert("type"@, Json::Text("input_text"@)).insert("text"@, Json::Text(text)),
    );
    Json::Object(
        Map::empty().insert("type"@, Json::Text("message"@)).insert(
            "role"@,
            Json::Text("user"@),
        ).insert("content"@, Json::List(seq![part])),
    )
}

/// The request with a note from the user at the end of its messages. Where
/// the preserved OpenAI Responses body has a conversation, the note stands at
/// its end too, and that body alone stays; otherwise no body stays.
pub open spec fn with_note(request: RequestView, note: Seq<char>) -> RequestView {
    let noted = RequestView { messages: noted_messages(request.messages, note), ..request };
    match request.responses_input() {
        Some(items) => {
            let extended = noted.with_responses_input(items.push(user_text_item(note)));
            RequestView {
                requests: BodiesView {
                    responses: extended.requests.responses,
                    others: Seq::empty(),
                },
                ..extended
            }
        },
        None => RequestView { requests: no_bodies(), ..noted },
    }
}

/// A text of the user in the OpenAI Responses format.
fn user_text_value(text: &str) -> (item: Value)
    ensures
        json_of(item) == user_text_item(text@),
{
    let mut part = map_new();
    map_insert(&mut part, "type".to_string(), text_value("input_text".to_string()));
    map_insert(&mut part, "text".to_string(), text_value(text.to_string()));
    let mut content: Vec<Value> = Vec::new();
    content.push(object_value(part));
    assert(json_list(content@) =~= seq![json_of(content@[0])]);
    let mut item = map_new();
    map_insert(&mut item, "type".to_string(), text_value("message".to_string()));
    map_insert(&mut item, "role".to_string(), text_value("user".to_string()));
    map_insert(&mut item, "content".to_string(), list_value(content));
    object_value(item)
}

/// Appends a note from the user to the request's messages.
fn add_note(request: &mut Request, note: &str)
    ensures
        final(request)@ == (RequestView {
            messages: noted_messages(old(request)@.messages, note@),
            ..old(request)@
        }),
{
    let count = request.llm_request.messages.len();
    if count > 0 && request.llm_request.messages[count - 1].role == Role::User {
        let ghost before = request.llm_request.messages@;
        let ghost content = before[count - 1].content@;
        request.llm_request.messages[count - 1].content.push(
            ContentBlock::Text { text: note.to_string() },
        );
        proof {
            let after = request.llm_request.messages@;
            assert(after[count - 1]@.content =~= blocks_view(content).push(
                BlockView::Text { text: note@ },
            ));
            assert(messages_view(after) =~= noted_messages(messages_view(before), note@));
        }
    } else {
        let ghost before = request.llm_request.messages@;
        request.llm_request.messages.push(Message::text(Role::User, note));
        assert(messages_view(request.llm_request.messages@) =~= noted_messages(
            messages_view(before),
            note@,
        ));
    }
}

/// Appends a note from the user to the request's messages. No preserved body
/// stays.
pub fn append_note(request: &mut Request, note: &str)
    ensures
        final(request)@ == (RequestView {
            messages: noted_messages(old(request)@.messages, note@),
            requests: no_bodies(),
            ..old(request)@
        }),
{
    add_note(request, note);
    drop_exact_replay(request);
}

/// Appends a note from the user to the request's messages, and to the
/// preserved OpenAI Responses conversation where there is one. No other
/// preserved body stays.
pub fn append_note_preserving_responses(request: &mut Request, note: &str)
    ensures
        final(request)@ == with_note(old(request)@, note@),
{
    let ghost start = request@;
    add_note(request, note);
    assert(request@.responses_input() == start.responses_input());
    let extended = match exact_responses_input_mut(request) {
        Some(input) => {
            let ghost before = input@;
            let item = user_text_value(note);
            input.push(item);
            assert(json_list(input@) =~= json_list(before).push(user_text_item(note@)));
            true
        },
        None => false,
    };
    if extended {
        retain_responses(request);
    } else {
        drop_exact_replay(request);
    }
}

/// Whether the instructions begin with this system prompt.
pub open spec fn has_prompt(instructions: Seq<MessageView>, prompt: Seq<char>) -> bool {
    &&& instructions.len() > 0
    &&& instructions[0].role == Role::System
    &&& instructions[0].content.len() > 0
    &&& instructions[0].content[0] == BlockView::Text { text: prompt }
}

/// The instructions with this system prompt at their beginning.
pub open spec fn prompted(instructions: Seq<MessageView>, prompt: Seq<char>) -> Seq<MessageView> {
    if has_prompt(instructions, prompt) {
        instructions
    } else {
        seq![text_message(Role::System, prompt)] + instructions
    }
}

/// The instructions of an OpenAI Responses body with this system prompt at
/// their beginning.
pub open spec fn prompted_text(instructions: Option<Seq<char>>, prompt: Seq<char>) -> Seq<char> {
    match instructions {
        Some(text) => if text.len() == 0 {
            prompt
        } else if text == prompt || (prompt + "\n\n"@).is_prefix_of(text) {
            text
        } else {
            prompt + "\n\n"@ + text
        },
        None => prompt,
    }
}

/// The request with this system prompt at the beginning of its instructions.
/// Where the preserved OpenAI Responses body is an object, its instructions
/// begin with the prompt too, and that body alone stays; otherwise no body
/// stays.
pub open spec fn with_prompt(request: RequestView, prompt: Seq<char>) -> RequestView {
    RequestView {
        instructions: prompted(request.instructions, prompt),
        requests: match request.requests.responses {
            Some(body) => if body is Object {
                BodiesView {
                    responses: Some(
                        body.with_member(
                            "instructions"@,
                            Json::Text(prompted_text(body.text_member("instructions"@), prompt)),
                        ),
                    ),
                    others: Seq::empty(),
                }
            } else {
                no_bodies()
            },
            None => no_bodies(),
        },
        ..request
    }
}

fn instructions_have_prompt(request: &Request, prompt: &str) -> (found: bool)
    ensures
        found == has_prompt(request@.instructions, prompt@),
{
    let instructions = &request.llm_request.instructions;
    if instructions.len() == 0 {
        return false;
    }
    let first = &instructions[0];
    assert(request@.instructions[0] == first@);
    if first.role != Role::System || first.content.len() == 0 {
        return false;
    }
    assert(first@.content[0] == block_view(first.content@[0]));
    match &first.content[0] {
        ContentBlock::Text { text } => *text.as_str() == *prompt,
        _ => false,
    }
}

/// The instructions of an OpenAI Responses body with this system prompt at
/// their beginning.
fn prompted_instructions(instructions: Option<&str>, prompt: &str) -> (text: String)
    ensures
        text@ == prompted_text(
            match instructions {
                Some(inner) => Some(inner@),
                None => None,
            },
            prompt@,
        ),
{
    let mut lead = prompt.to_string();
    lead.append("\n\n");
    match instructions {
        Some(inner) => if inner.is_empty() {
            prompt.to_string()
        } else if *inner == *prompt || starts_with(inner, lead.as_str()) {
            inner.to_string()
        } else {
            lead.append(inner);
            lead
        },
        None => prompt.to_string(),
    }
}

/// Puts a system prompt at the beginning of the request's instructions,
/// unless they begin with it already.
fn add_prompt(request: &mut Request, prompt: &str)
    ensures
        final(request)@ == (RequestView {
            instructions: prompted(old(request)@.instructions, prompt@),
            ..old(request)@
        }),
{
    if !instructions_have_prompt(request, prompt) {
        let ghost before = request.llm_request.instructions@;
        let block = InstructionBlock {
            role: Role::System,
            content: vec![ContentBlock::Text { text: prompt.to_string() }],
        };
        assert(block@.content =~= text_message(Role::System, prompt@).content);
        request.llm_request.instructions.insert(0, block);
        assert(instructions_view(request.llm_request.instructions@) =~= prompted(
            instructions_view(before),
            prompt@,
        ));
    }
}

/// Puts a system prompt at the beginning of the request's instructions,
/// unless they begin with it already. No preserved body stays.
pub fn prepend_system_prompt(request: &mut Request, prompt: &str)
    ensures
        final(request)@ == (RequestView {
            instructions: prompted(old(request)@.instructions, prompt@),
            requests: no_bodies(),
            ..old(request)@
        }),
{
    add_prompt(request, prompt);
    drop_exact_replay(request);
}

/// Puts a system prompt at the beginning of the request's instructions, and
/// of the instructions in the preserved OpenAI Responses body, unless they
/// begin with it already. No other preserved body stays.
pub fn prepend_system_prompt_preserving_responses(request: &mut Request, prompt: &str)
    ensures
        final(request)@ == with_prompt(old(request)@, prompt@),
{
    add_prompt(request, prompt);
    let rewritten = match &mut request.llm_request.preservation.requests.responses {
        Some(body) => {
            let current = match value_get(body, "instructions") {
                Some(member) => value_as_str(member),
                None => None,
            };
            let instructions = prompted_instructions(current, prompt);
            match value_as_object_mut(body) {
                Some(members) => {
                    map_insert(members, "instructions".to_string(), text_value(instructions));
                    true
                },
                None => false,
            }
        },
        None => false,
    };
    if rewritten {
        retain_responses(request);
    } else {
        drop_exact_replay(request);
    }
}

} // verus!
