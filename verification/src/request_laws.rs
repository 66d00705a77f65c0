//! What texts, JSON values, views and rewritten requests are, member by member.

use crate::blocks::calls_view;
use crate::error::{ClientErrorView, LibsyError, LlmClientError};
use crate::json::{json_list, json_of, Json};
use crate::laws::law_note_ends_both_conversations;
use crate::plan_execute::planning_request;
use crate::protocol::{
    block_view, blocks_view, instructions_view, messages_view, no_bodies, optional_json,
    BlockView, BodiesView, ContentBlock, InstructionBlock, Message, MessageView, Request,
    RequestView, Role, ToolCall, ToolChoice, ToolChoiceView,
};
use crate::replay::{
    has_prompt, noted_messages, prompted, prompted_text, user_text_item, with_note, with_prompt,
};
use crate::text::{blank, is_white_space, joined, trimmed, trimmed_end, trimmed_start};
use serde_json::Value;
use vstd::prelude::*;

verus! {

/// White space is the 25 characters with that Unicode property.
pub proof fn law_white_space(c: char)
    ensures
        is_white_space(c) <==> {
            let code = c as u32;
            ||| 0x9 <= code <= 0xd
            ||| code == 0x20
            ||| code == 0x85
            ||| code == 0xa0
            ||| code == 0x1680
            ||| 0x2000 <= code <= 0x200a
            ||| code == 0x2028
            ||| code == 0x2029
            ||| code == 0x202f
            ||| code == 0x205f
            ||| code == 0x3000
        },
{
}

/// A text is blank where each of its characters is white space.
pub proof fn law_blank(text: Seq<char>)
    ensures
        blank(text) <==> text.all(|c: char| is_white_space(c)),
{
    let white = |c: char| is_white_space(c);
    if blank(text) {
        assert forall|i: int| 0 <= i < text.len() implies white(#[trigger] text[i]) by {}
    }
    if text.all(white) {
        assert forall|i: int| 0 <= i < text.len() implies is_white_space(#[trigger] text[i]) by {
            assert(white(text[i]));
        }
    }
}

/// A trimmed text is a piece of the text that neither starts nor ends with
/// white space, and outside of which there is nothing but white space.
pub proof fn law_trimmed(text: Seq<char>)
    ensures
        exists|from: int, to: int|
            0 <= from <= to <= text.len() && trimmed(text) == #[trigger] text.subrange(from, to)
                && (forall|i: int|
                0 <= i < text.len() && (i < from || to <= i) ==> is_white_space(
                    #[trigger] text[i],
                )) && (from < to ==> !is_white_space(text[from]) && !is_white_space(text[to - 1])),
{
    let from = lemma_start_of(text);
    let rest = text.skip(from);
    let to = lemma_end_of(rest);
    assert(trimmed(text) =~= text.subrange(from, from + to));
    assert forall|i: int|
        0 <= i < text.len() && (i < from || from + to <= i) implies is_white_space(
        #[trigger] text[i],
    ) by {
        if i >= from {
            assert(rest[i - from] == text[i]);
        }
    }
    if to > 0 {
        assert(rest[0] == text[from]);
        assert(rest[to - 1] == text[from + to - 1]);
    }
}

proof fn lemma_start_of(text: Seq<char>) -> (from: int)
    ensures
        0 <= from <= text.len(),
        trimmed_start(text) == text.skip(from),
        forall|i: int| 0 <= i < from ==> is_white_space(#[trigger] text[i]),
        from < text.len() ==> !is_white_space(text[from]),
    decreases text.len(),
{
    if text.len() > 0 && is_white_space(text.first()) {
        let rest = text.drop_first();
        let from = lemma_start_of(rest);
        assert(rest.skip(from) =~= text.skip(from + 1));
        assert forall|i: int| 0 <= i < from + 1 implies is_white_space(#[trigger] text[i]) by {
            if i > 0 {
                assert(rest[i - 1] == text[i]);
            }
        }
        from + 1
    } else {
        assert(text.skip(0) =~= text);
        0
    }
}

proof fn lemma_end_of(text: Seq<char>) -> (to: int)
    requires
        text.len() > 0 ==> !is_white_space(text[0]),
    ensures
        0 <= to <= text.len(),
        trimmed_end(text) == text.take(to),
        forall|i: int| to <= i < text.len() ==> is_white_space(#[trigger] text[i]),
        to > 0 ==> !is_white_space(text[to - 1]),
    decreases text.len(),
{
    if text.len() > 0 && is_white_space(text.last()) {
        let rest = text.drop_last();
        let to = lemma_end_of(rest);
        assert(rest.take(to) =~= text.take(to));
        to
    } else {
        assert(text.take(text.len() as int) =~= text);
        text.len() as int
    }
}

/// No text joins to nothing and one text to itself; where texts are joined in
/// two groups, a line break stands between the groups.
pub proof fn law_joined(one: Seq<Seq<char>>, other: Seq<Seq<char>>, text: Seq<char>)
    ensures
        joined(Seq::<Seq<char>>::empty()).len() == 0,
        joined(seq![text]) == text,
        one.len() > 0 && other.len() > 0 ==> joined(one + other) == joined(one).push('\n') + joined(
            other,
        ),
    decreases other.len(),
{
    reveal_strlit("\n");
    if one.len() > 0 && other.len() > 0 {
        let all = one + other;
        let rest = other.drop_last();
        assert(all.drop_last() =~= one + rest);
        assert(all.last() == other.last());
        assert("\n"@ =~= seq!['\n']);
        if rest.len() > 0 {
            law_joined(one, rest, text);
            assert(joined(all) =~= joined(one).push('\n') + joined(other));
        } else {
            assert(one + rest =~= one);
            assert(joined(other) == other.last());
            assert(joined(all) =~= joined(one).push('\n') + joined(other));
        }
    }
}

/// What a value has under a key, and as a text or a list.
pub proof fn law_members(value: Json, key: Seq<char>, member: Json, text: Seq<char>, items: Seq<Json>)
    ensures
        value.member(key) == Some(member) <==> (value matches Json::Object(members)
            && members.contains_key(key) && members[key] == member),
        value.text() == Some(text) <==> value == Json::Text(text),
        value.items() == Some(items) <==> value == Json::List(items),
        value.text_member(key) == Some(text) <==> (value matches Json::Object(members)
            && members.contains_key(key) && members[key] == Json::Text(text)),
        value matches Json::Object(before) ==> value.with_member(key, member) == Json::Object(
            before.insert(key, member),
        ),
        !(value is Object) ==> value.with_member(key, member) == value,
{
}

/// A list of values holds what each of them holds, in order, and an optional
/// value holds what the value does.
pub proof fn law_values(values: Seq<Value>, value: Value)
    ensures
        optional_json(Some(value)) == Some(json_of(value)),
        optional_json(None) is None,
        json_list(values).len() == values.len(),
        forall|i: int| 0 <= i < values.len() ==> #[trigger] json_list(values)[i] == json_of(values[i]),
{
}

/// The view of a tool call holds each of its fields.
pub proof fn law_call_view(call: ToolCall)
    ensures
        call@.id == call.id@,
        call@.name == call.name@,
        call@.arguments == json_of(call.arguments),
        call@.mutating == call.mutating,
{
}

/// The views of borrowed calls are theirs, in order.
pub proof fn law_call_views(calls: Seq<&ToolCall>)
    ensures
        calls_view(calls).len() == calls.len(),
        forall|i: int| 0 <= i < calls.len() ==> #[trigger] calls_view(calls)[i] == calls[i]@,
{
}

/// The view of a block holds each of its fields.
pub proof fn law_block_view(block: ContentBlock)
    ensures
        match block {
            ContentBlock::Text { text } => block_view(block) == (BlockView::Text { text: text@ }),
            ContentBlock::Reasoning { text, detail } => block_view(block) == (
            BlockView::Reasoning { text: text@, detail: json_of(detail) }),
            ContentBlock::ToolCall(call) => block_view(block) == BlockView::ToolCall(call@),
            ContentBlock::ToolResult(result) => (block_view(block) matches BlockView::ToolResult {
                tool_call_id,
                content,
                is_error,
            } && tool_call_id == result.tool_call_id@ && is_error == result.is_error && content.len()
                == result.content@.len() && (forall|i: int|
                0 <= i < content.len() ==> #[trigger] content[i] == block_view(
                    result.content@[i],
                ))),
            ContentBlock::Other(value) => block_view(block) == BlockView::Other(json_of(value)),
        },
        block@ == block_view(block),
{
}

/// The view of a message, or of an instruction, holds its role and each of its
/// blocks, in order.
pub proof fn law_message_view(message: Message, instruction: InstructionBlock)
    ensures
        message@.role == message.role,
        message@.content.len() == message.content@.len(),
        forall|i: int|
            0 <= i < message.content@.len() ==> #[trigger] message@.content[i] == block_view(
                message.content@[i],
            ),
        instruction@.role == instruction.role,
        instruction@.content.len() == instruction.content@.len(),
        forall|i: int|
            0 <= i < instruction.content@.len() ==> #[trigger] instruction@.content[i]
                == block_view(instruction.content@[i]),
{
}

/// The views of lists hold the view of each element, in order.
pub proof fn law_list_views(
    blocks: Seq<ContentBlock>,
    messages: Seq<Message>,
    instructions: Seq<InstructionBlock>,
)
    ensures
        blocks_view(blocks).len() == blocks.len(),
        forall|i: int|
            0 <= i < blocks.len() ==> #[trigger] blocks_view(blocks)[i] == block_view(blocks[i]),
        messages_view(messages).len() == messages.len(),
        forall|i: int|
            0 <= i < messages.len() ==> #[trigger] messages_view(messages)[i] == messages[i]@,
        instructions_view(instructions).len() == instructions.len(),
        forall|i: int|
            0 <= i < instructions.len() ==> #[trigger] instructions_view(instructions)[i]
                == instructions[i]@,
{
}

/// The view of a request holds each of its fields.
pub proof fn law_request_view(request: Request)
    ensures
        request@.model is Some == request.llm_request.model is Some,
        request.llm_request.model matches Some(model) ==> request@.model == Some(model@),
        request@.instructions == instructions_view(request.llm_request.instructions@),
        request@.messages == messages_view(request.llm_request.messages@),
        request@.stream == request.llm_request.stream,
        request@.tool_choice is Some == request.llm_request.tool_choice is Some,
        request.llm_request.tool_choice matches Some(choice) ==> match choice {
            ToolChoice::Forbidden => request@.tool_choice == Some(ToolChoiceView::Forbidden),
            ToolChoice::Other(value) => request@.tool_choice == Some(
                ToolChoiceView::Other(json_of(value)),
            ),
        },
        request@.identity is Some == request.identity is Some,
        request.identity matches Some(identity) ==> request@.identity == Some(identity.key@),
        request@.metadata is Some == request.metadata is Some,
        request.metadata matches Some(metadata) ==> {
            let view = request@.metadata->0;
            &&& view.session_id is Some == metadata.session_id is Some
            &&& metadata.session_id matches Some(id) ==> view.session_id == Some(id@)
            &&& view.session_final == metadata.session_final
            &&& view.detail == json_of(metadata.detail)
        },
        request@.detail == json_of(request.detail),
        request@.llm_detail == json_of(request.llm_request.detail),
        ({
            let bodies = request.llm_request.preservation.requests;
            &&& request@.requests.responses is Some == bodies.responses is Some
            &&& bodies.responses matches Some(body) ==> request@.requests.responses == Some(
                json_of(body),
            )
            &&& request@.requests.others.len() == bodies.others@.len()
            &&& forall|i: int|
                0 <= i < bodies.others@.len() ==> #[trigger] request@.requests.others[i] == (
                    bodies.others@[i].0@,
                    json_of(bodies.others@[i].1),
                )
        }),
{
}

/// A request is the last of its session where its metadata say so, and only
/// there.
pub proof fn law_last_request(request: RequestView)
    ensures
        request.is_final() <==> request.metadata is Some && request.metadata->0.session_final is Some
            && request.metadata->0.session_final->0,
{
}

/// The conversation in the preserved OpenAI Responses body is the list under
/// `input` of an object, and to replace it changes nothing else.
pub proof fn law_responses_input(request: RequestView, items: Seq<Json>)
    ensures
        request.responses_input() == Some(items) <==> (request.requests.responses matches Some(body)
            && body matches Json::Object(members) && members.contains_key("input"@)
            && members["input"@] == Json::List(items)),
        (request.requests.responses matches Some(body) && body matches Json::Object(members)) ==> {
            request.with_responses_input(items) == (RequestView {
                requests: BodiesView {
                    responses: Some(
                        Json::Object(
                            request.requests.responses->0->Object_0.insert(
                                "input"@,
                                Json::List(items),
                            ),
                        ),
                    ),
                    others: request.requests.others,
                },
                ..request
            })
        },
{
}

/// The errors hold what went wrong, in words.
pub proof fn law_errors(error: LibsyError, message: Seq<char>, source: LlmClientError)
    ensures
        error.says(message) <==> (error is AlgorithmError && error->message@ == message),
        match source {
            LlmClientError::ResponseTranslation(words) => source@
                == ClientErrorView::ResponseTranslation(words@),
            LlmClientError::UpstreamHttp { status, body } => source@ == (
            ClientErrorView::UpstreamHttp { status, body: body@ }),
            LlmClientError::Other(words) => source@ == ClientErrorView::Other(words@),
        },
{
}

/// A note stands at the end of the messages, as a block of the last message
/// where that is the user's and as a message of its own otherwise. Every other
/// block stays where it is.
pub proof fn law_note_in_messages(messages: Seq<MessageView>, note: Seq<char>)
    ensures
        ({
            let noted = noted_messages(messages, note);
            let words = BlockView::Text { text: note };
            if messages.len() > 0 && messages[messages.len() - 1].role == Role::User {
                let last = messages.len() - 1;
                &&& noted.len() == messages.len()
                &&& forall|i: int| 0 <= i < last ==> #[trigger] noted[i] == messages[i]
                &&& noted[last].role == Role::User
                &&& noted[last].content == messages[last].content.push(words)
            } else {
                let last = messages.len() as int;
                &&& noted.len() == messages.len() + 1
                &&& forall|i: int| 0 <= i < last ==> #[trigger] noted[i] == messages[i]
                &&& noted[last].role == Role::User
                &&& noted[last].content == seq![words]
            }
        }),
{
}

/// A text of the user in the OpenAI Responses format is a message of one part,
/// which is the text.
pub proof fn law_user_text_item(text: Seq<char>)
    ensures
        user_text_item(text) matches Json::Object(members) && {
            &&& members.dom() =~= set!["type"@, "role"@, "content"@]
            &&& members["type"@] == Json::Text("message"@)
            &&& members["role"@] == Json::Text("user"@)
            &&& members["content"@] matches Json::List(parts)
            &&& parts.len() == 1
            &&& parts[0] matches Json::Object(part)
            &&& part.dom() =~= set!["type"@, "text"@]
            &&& part["type"@] == Json::Text("input_text"@)
            &&& part["text"@] == Json::Text(text)
        },
{
    reveal_strlit("type");
    reveal_strlit("role");
    reveal_strlit("content");
    reveal_strlit("text");
    assert("type"@[0] != "role"@[0]);
    assert("type"@.len() != "content"@.len());
    assert("role"@.len() != "content"@.len());
    assert("type"@[1] != "text"@[1]);
}

/// A note changes the messages and the preserved bodies of a request and
/// nothing else. Of the bodies only an OpenAI Responses one with a conversation
/// stays, with the note at the end of that conversation.
pub proof fn law_note_in_request(request: RequestView, note: Seq<char>)
    ensures
        ({
            let noted = with_note(request, note);
            &&& noted.messages == noted_messages(request.messages, note)
            &&& noted.model == request.model
            &&& noted.instructions == request.instructions
            &&& noted.stream == request.stream
            &&& noted.tool_choice == request.tool_choice
            &&& noted.metadata == request.metadata
            &&& noted.identity == request.identity
            &&& noted.detail == request.detail
            &&& noted.llm_detail == request.llm_detail
            &&& noted.requests.others.len() == 0
            &&& if request.responses_input() is Some {
                noted.requests.responses == Some(
                    Json::Object(
                        request.requests.responses->0->Object_0.insert(
                            "input"@,
                            Json::List(
                                request.responses_input()->0.push(user_text_item(note)),
                            ),
                        ),
                    ),
                )
            } else {
                noted.requests.responses is None
            }
        }),
{
    law_note_ends_both_conversations(request, note);
}

/// A system prompt stands first in the instructions, as a block of its own,
/// unless the first block is that prompt already. Every other instruction
/// stays, in order.
pub proof fn law_prompt_in_instructions(instructions: Seq<MessageView>, prompt: Seq<char>)
    ensures
        ({
            let words = BlockView::Text { text: prompt };
            let there = instructions.len() > 0 && instructions[0].role == Role::System
                && instructions[0].content.len() > 0 && instructions[0].content[0] == words;
            &&& has_prompt(instructions, prompt) == there
            &&& there ==> prompted(instructions, prompt) == instructions
            &&& !there ==> prompted(instructions, prompt) == seq![
                MessageView { role: Role::System, content: seq![words] },
            ] + instructions
        }),
{
}

/// The instructions of an OpenAI Responses body begin with the prompt: they
/// are the prompt where there were none, the same where they are or begin with
/// the prompt already, and follow it after an empty line otherwise.
pub proof fn law_prompt_in_text(instructions: Option<Seq<char>>, prompt: Seq<char>)
    ensures
        ({
            let lead = prompt + seq!['\n', '\n'];
            let result = prompted_text(instructions, prompt);
            match instructions {
                None => result == prompt,
                Some(text) => {
                    &&& text.len() == 0 ==> result == prompt
                    &&& text.len() > 0 && (text == prompt || lead.is_prefix_of(text)) ==> result
                        == text
                    &&& text.len() > 0 && text != prompt && !lead.is_prefix_of(text) ==> result
                        == lead + text
                },
            }
        }),
{
    reveal_strlit("\n\n");
    assert("\n\n"@ =~= seq!['\n', '\n']);
}

/// A system prompt changes the instructions and the preserved bodies of a
/// request and nothing else. Of the bodies only an OpenAI Responses one that is
/// an object stays, and of that only the instructions change.
pub proof fn law_prompt_in_request(request: RequestView, prompt: Seq<char>)
    ensures
        ({
            let given = with_prompt(request, prompt);
            &&& given.instructions == prompted(request.instructions, prompt)
            &&& given.messages == request.messages
            &&& given.model == request.model
            &&& given.stream == request.stream
            &&& given.tool_choice == request.tool_choice
            &&& given.metadata == request.metadata
            &&& given.identity == request.identity
            &&& given.detail == request.detail
            &&& given.llm_detail == request.llm_detail
            &&& given.requests.others.len() == 0
            &&& if request.requests.responses is Some && request.requests.responses->0 is Object {
                let members = request.requests.responses->0->Object_0;
                let key = "instructions"@;
                given.requests.responses == Some(
                    Json::Object(
                        members.insert(
                            key,
                            Json::Text(
                                prompted_text(
                                    if members.contains_key(key) && members[key] is Text {
                                        Some(members[key]->Text_0)
                                    } else {
                                        None
                                    },
                                    prompt,
                                ),
                            ),
                        ),
                    ),
                )
            } else {
                given.requests.responses is None
            }
        }),
{
}

/// A planner's request differs from the request in its instructions, which
/// begin with the prompt, and in its preserved bodies, of which none stays.
pub proof fn law_planning_request(request: RequestView, prompt: Seq<char>)
    ensures
        ({
            let planned = planning_request(request, prompt);
            &&& planned.instructions == prompted(request.instructions, prompt)
            &&& planned.messages == request.messages
            &&& planned.model == request.model
            &&& planned.stream == request.stream
            &&& planned.tool_choice == request.tool_choice
            &&& planned.metadata == request.metadata
            &&& planned.identity == request.identity
            &&& planned.detail == request.detail
            &&& planned.llm_detail == request.llm_detail
            &&& planned.requests.responses is None
            &&& planned.requests.others.len() == 0
        }),
        no_bodies().responses is None,
        no_bodies().others.len() == 0,
{
}

} // verus!
