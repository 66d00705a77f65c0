//! Shortening a conversation for a planning checkpoint.
//!
//! Everything before the first edit stays. From there on only tool calls and
//! their results stay: those of the first edit and of the most recent calls,
//! and what was said in the messages that made these calls.

use crate::blocks::{
    block_calls, blocks_of, calls_of, calls_view, message_blocks, message_has_mutation,
    message_mutates,
};
use crate::json::{json_list, json_of, text_member, text_member_is, value_get, Json};
use crate::protocol::{
    block_view, blocks_view, messages_view, BlockView, CallView, ContentBlock, Message,
    MessageView, ToolCall,
};
use crate::sessions::IdSet;
use serde_json::Value;
use vstd::prelude::*;

verus! {

/// Tool calls, with their results, that stay after the first edit.
pub const RECENT_CHECKPOINT_TOOL_CALLS: usize = 6;

/// The index of the first element that passes the test; the length where none does.
pub open spec fn first_where<A>(elements: Seq<A>, test: spec_fn(A) -> bool) -> int
    decreases elements.len(),
{
    if elements.len() == 0 {
        0
    } else {
        let earlier = first_where(elements.drop_last(), test);
        if earlier < elements.len() - 1 {
            earlier
        } else if test(elements.last()) {
            elements.len() - 1
        } else {
            elements.len() as int
        }
    }
}

/// What is before the first element that passes the test does not pass it.
pub proof fn lemma_first_where<A>(elements: Seq<A>, test: spec_fn(A) -> bool)
    ensures
        0 <= first_where(elements, test) <= elements.len(),
        forall|i: int| 0 <= i < first_where(elements, test) ==> !test(#[trigger] elements[i]),
        first_where(elements, test) < elements.len() ==> test(
            elements[first_where(elements, test)],
        ),
    decreases elements.len(),
{
    if elements.len() > 0 {
        lemma_first_where(elements.drop_last(), test);
        assert forall|i: int| 0 <= i < first_where(elements, test) implies !test(
            #[trigger] elements[i],
        ) by {
            if i < elements.len() - 1 {
                assert(elements.drop_last()[i] == elements[i]);
            }
        }
    }
}

/// An index before which nothing passes the test, and which is the length or
/// passes it, is the index of the first.
pub proof fn lemma_is_first_where<A>(elements: Seq<A>, test: spec_fn(A) -> bool, at: int)
    requires
        0 <= at <= elements.len(),
        forall|i: int| 0 <= i < at ==> !test(#[trigger] elements[i]),
        at < elements.len() ==> test(elements[at]),
    ensures
        first_where(elements, test) == at,
{
    lemma_first_where(elements, test);
    let first = first_where(elements, test);
    if first < at {
        assert(!test(elements[first]));
    }
    if at < first {
        assert(!test(elements[at]));
    }
}

/// Tests whether a message edits or writes files.
pub open spec fn mutating_message() -> spec_fn(MessageView) -> bool {
    |message: MessageView| message_mutates(message)
}

/// Tests whether a call edits or writes files.
pub open spec fn mutating_call() -> spec_fn(CallView) -> bool {
    |call: CallView| call.mutating
}

/// Where the first message with an edit stands.
pub open spec fn boundary(messages: Seq<MessageView>) -> int {
    first_where(messages, mutating_message())
}

/// Whether the call at `index` is one of the most recent.
pub open spec fn is_recent(index: int, count: nat) -> bool {
    index + RECENT_CHECKPOINT_TOOL_CALLS >= count
}

/// The id of the first call that edits or writes files.
pub open spec fn first_mutation_id(calls: Seq<CallView>) -> Option<Seq<char>> {
    let first = first_where(calls, mutating_call());
    if first < calls.len() {
        Some(calls[first].id)
    } else {
        None
    }
}

/// The ids of the calls that stay, among the first `n`: those of the most
/// recent calls, and that of the first call that edits or writes files.
pub open spec fn selected_among(calls: Seq<CallView>, n: int) -> Set<Seq<char>> {
    Set::new(
        |id: Seq<char>|
            exists|k: int|
                0 <= k < n && (#[trigger] calls[k]).id == id && (is_recent(k, calls.len())
                    || first_mutation_id(calls) == Some(id)),
    )
}

/// The ids of the calls that stay.
pub open spec fn selected_of(calls: Seq<CallView>) -> Set<Seq<char>> {
    selected_among(calls, calls.len() as int)
}

/// The ids of the calls in these messages that stay.
pub open spec fn selected_ids(messages: Seq<MessageView>) -> Set<Seq<char>> {
    selected_of(calls_of(blocks_of(messages)))
}

/// Whether the message makes one of the selected calls.
pub open spec fn makes_selected_call(selected: Set<Seq<char>>, message: MessageView) -> bool {
    exists|i: int|
        0 <= i < message.content.len() && ((#[trigger] message.content[i]) matches BlockView::ToolCall(
            call,
        ) && selected.contains(call.id))
}

/// Tests whether a block stays: a call or a result by its id, any other block
/// where its message makes a selected call.
pub open spec fn block_stays(selected: Set<Seq<char>>, calling: bool) -> spec_fn(BlockView) -> bool {
    |block: BlockView|
        match block {
            BlockView::ToolCall(call) => selected.contains(call.id),
            BlockView::ToolResult { tool_call_id, .. } => selected.contains(tool_call_id),
            _ => calling,
        }
}

/// What stays of a message.
pub open spec fn shortened(selected: Set<Seq<char>>) -> spec_fn(MessageView) -> MessageView {
    |message: MessageView|
        MessageView {
            role: message.role,
            content: message.content.filter(
                block_stays(selected, makes_selected_call(selected, message)),
            ),
        }
}

/// Tests whether anything is left of a message.
pub open spec fn not_empty() -> spec_fn(MessageView) -> bool {
    |message: MessageView| message.content.len() > 0
}

/// What stays of the messages from the first edit on.
pub open spec fn shortened_tail(selected: Set<Seq<char>>, tail: Seq<MessageView>) -> Seq<MessageView> {
    tail.map_values(shortened(selected)).filter(not_empty())
}

/// The shortened conversation.
pub open spec fn compacted(messages: Seq<MessageView>) -> Seq<MessageView> {
    let tail = messages.skip(boundary(messages));
    messages.take(boundary(messages)) + shortened_tail(selected_ids(tail), tail)
}

/// The ids of the calls in these messages that stay: the most recent calls',
/// and the first edit's.
pub fn selected_message_call_ids(messages: &[Message]) -> (selected: IdSet)
    ensures
        selected@ == selected_ids(messages_view(messages@)),
{
    let blocks = message_blocks(messages);
    let calls = block_calls(&blocks);
    let ghost views = calls_of(blocks_of(messages_view(messages@)));
    let mut first: usize = 0;
    while first < calls.len() && !calls[first].mutating
        invariant
            first <= calls.len(),
            views == calls_view(calls@),
            forall|i: int| 0 <= i < first ==> !mutating_call()(#[trigger] views[i]),
        decreases calls.len() - first,
    {
        first += 1;
    }
    proof {
        lemma_is_first_where(views, mutating_call(), first as int);
    }
    let mut selected = IdSet::new();
    let mut k: usize = 0;
    assert(selected@ =~= selected_among(views, 0));
    while k < calls.len()
        invariant
            k <= calls.len(),
            first <= calls.len(),
            views == calls_view(calls@),
            first == first_where(views, mutating_call()),
            selected@ == selected_among(views, k as int),
        decreases calls.len() - k,
    {
        let call: &ToolCall = calls[k];
        let recent = calls.len() - k <= RECENT_CHECKPOINT_TOOL_CALLS;
        let stays = recent || (first < calls.len() && call.id == calls[first].id);
        assert(views[k as int] == call@);
        assert(stays == (is_recent(k as int, views.len()) || first_mutation_id(views) == Some(
            call.id@,
        )));
        if stays {
            selected.insert(call.id.as_str());
        }
        proof {
            assert forall|id: Seq<char>| selected@.contains(id) <==> selected_among(views, k + 1).contains(id) by {
                if selected_among(views, k as int).contains(id) {
                    let j = choose|j: int|
                        0 <= j < k && (#[trigger] views[j]).id == id && (is_recent(j, views.len())
                            || first_mutation_id(views) == Some(id));
                    assert(views[j].id == id);
                }
                if selected_among(views, k + 1).contains(id) {
                    let j = choose|j: int|
                        0 <= j < k + 1 && (#[trigger] views[j]).id == id && (is_recent(
                            j,
                            views.len(),
                        ) || first_mutation_id(views) == Some(id));
                    if j < k {
                        assert(selected_among(views, k as int).contains(id));
                    }
                }
                if stays && id == call.id@ {
                    assert(views[k as int].id == id);
                }
            }
            assert(selected@ =~= selected_among(views, k + 1));
        }
        k += 1;
    }
    selected
}

fn shorten_message(message: &Message, selected: &IdSet) -> (short: Message)
    ensures
        short@ == shortened(selected@)(message@),
{
    let mut calling = false;
    let mut i: usize = 0;
    while i < message.content.len()
        invariant
            i <= message.content.len(),
            calling == (exists|j: int|
                0 <= j < i && ((#[trigger] message@.content[j]) matches BlockView::ToolCall(call)
                    && selected@.contains(call.id))),
        decreases message.content.len() - i,
    {
        let ghost view = message@.content[i as int];
        if let ContentBlock::ToolCall(call) = &message.content[i] {
            if selected.contains(call.id.as_str()) {
                assert(view matches BlockView::ToolCall(call) && selected@.contains(call.id));
                calling = true;
            }
        }
        i += 1;
    }
    assert(calling == makes_selected_call(selected@, message@));
    let ghost stays = block_stays(selected@, calling);
    let ghost views = message@.content;
    let mut content: Vec<ContentBlock> = Vec::new();
    assert(blocks_view(content@) =~= views.take(0).filter(stays)) by {
        reveal(Seq::filter);
    }
    i = 0;
    while i < message.content.len()
        invariant
            i <= message.content.len(),
            views == message@.content,
            stays == block_stays(selected@, calling),
            blocks_view(content@) == views.take(i as int).filter(stays),
        decreases message.content.len() - i,
    {
        let block = &message.content[i];
        let keep = match block {
            ContentBlock::ToolCall(call) => selected.contains(call.id.as_str()),
            ContentBlock::ToolResult(result) => selected.contains(result.tool_call_id.as_str()),
            _ => calling,
        };
        assert(views[i as int] == block_view(*block));
        assert(keep == stays(views[i as int]));
        proof {
            assert(views.take(i + 1) =~= views.take(i as int).push(views[i as int]));
            views.take(i as int).lemma_filter_push(views[i as int], stays);
        }
        if keep {
            let ghost before = content@;
            content.push(block.clone());
            assert(blocks_view(content@) =~= blocks_view(before).push(views[i as int]));
        }
        i += 1;
    }
    assert(views.take(i as int) =~= views);
    Message { role: message.role, content }
}

/// The conversation, shortened from the first message with an edit on.
pub fn compact_messages(messages: &[Message]) -> (short: Vec<Message>)
    ensures
        messages_view(short@) == compacted(messages_view(messages@)),
{
    let ghost views = messages_view(messages@);
    let mut short: Vec<Message> = Vec::new();
    let mut at: usize = 0;
    assert(messages_view(short@) =~= views.take(0));
    while at < messages.len() && !message_has_mutation(&messages[at])
        invariant
            at <= messages.len(),
            views == messages_view(messages@),
            messages_view(short@) == views.take(at as int),
            forall|i: int| 0 <= i < at ==> !mutating_message()(#[trigger] views[i]),
        decreases messages.len() - at,
    {
        let ghost before = short@;
        short.push(messages[at].clone());
        assert(messages_view(short@) =~= messages_view(before).push(views[at as int]));
        assert(messages_view(short@) =~= views.take(at + 1));
        at += 1;
    }
    proof {
        lemma_is_first_where(views, mutating_message(), at as int);
    }
    let rest = vstd::slice::slice_subrange(messages, at, messages.len());
    let ghost tail = views.skip(at as int);
    assert(messages_view(rest@) =~= tail);
    let selected = selected_message_call_ids(rest);
    let ghost all = tail.map_values(shortened(selected@));
    let mut i: usize = 0;
    assert(all.take(0).filter(not_empty()) =~= Seq::<MessageView>::empty()) by {
        reveal(Seq::filter);
    }
    assert(messages_view(short@) =~= views.take(at as int) + all.take(0).filter(not_empty()));
    while i < rest.len()
        invariant
            i <= rest.len(),
            at <= views.len(),
            tail == messages_view(rest@),
            all == tail.map_values(shortened(selected@)),
            messages_view(short@) == views.take(at as int) + all.take(i as int).filter(not_empty()),
        decreases rest.len() - i,
    {
        let message = shorten_message(&rest[i], &selected);
        proof {
            assert(all.take(i + 1) =~= all.take(i as int).push(all[i as int]));
            all.take(i as int).lemma_filter_push(all[i as int], not_empty());
            assert(all[i as int] == message@);
        }
        if !message.content.is_empty() {
            let ghost before = short@;
            short.push(message);
            assert(messages_view(short@) =~= messages_view(before).push(message@));
            assert(messages_view(short@) =~= views.take(at as int) + all.take(i + 1).filter(
                not_empty(),
            ));
        }
        i += 1;
    }
    assert(all.take(i as int) =~= all);
    short
}

/// The text under `call_id` in an item of the OpenAI Responses format.
pub open spec fn raw_call_id(item: Json) -> Option<Seq<char>> {
    item.text_member("call_id"@)
}

/// Whether the item is a tool call.
pub open spec fn raw_is_call(item: Json) -> bool {
    item.text_member("type"@) == Some("function_call"@)
}

/// The name and the arguments of the tool call that the item is. Missing
/// arguments are `null`.
pub open spec fn raw_call(item: Json) -> Option<(Seq<char>, Json)> {
    if raw_is_call(item) {
        match item.text_member("name"@) {
            Some(name) => Some(
                (
                    name,
                    match item.member("arguments"@) {
                        Some(arguments) => arguments,
                        None => Json::Null,
                    },
                ),
            ),
            None => None,
        }
    } else {
        None
    }
}

/// An item, and whether the tool signals judge the call in it to edit or
/// write files.
pub type JudgedItem = (Json, bool);

/// The items, each with its verdict; an item without one is no edit.
pub open spec fn judged(items: Seq<Json>, verdicts: Seq<bool>) -> Seq<JudgedItem> {
    Seq::new(items.len(), |i: int| (items[i], i < verdicts.len() && verdicts[i]))
}

/// Whether the item is a tool call that edits or writes files.
pub open spec fn raw_mutates(item: Json, verdict: bool) -> bool {
    raw_call(item) is Some && verdict
}

/// Tests whether an item is a tool call that edits or writes files.
pub open spec fn raw_mutating() -> spec_fn(JudgedItem) -> bool {
    |item: JudgedItem| raw_mutates(item.0, item.1)
}

/// Tests whether an item is a tool call.
pub open spec fn raw_calling() -> spec_fn(JudgedItem) -> bool {
    |item: JudgedItem| raw_is_call(item.0)
}

/// The id of the first call that edits or writes files, where it has one.
pub open spec fn raw_first_mutation_id(calls: Seq<JudgedItem>) -> Option<Seq<char>> {
    let first = first_where(calls, raw_mutating());
    if first < calls.len() {
        raw_call_id(calls[first].0)
    } else {
        None
    }
}

/// The ids of the calls that stay, among the first `n`: those of the most
/// recent calls, and that of the first call that edits or writes files.
pub open spec fn raw_selected_among(calls: Seq<JudgedItem>, n: int) -> Set<Seq<char>> {
    Set::new(
        |id: Seq<char>|
            exists|k: int|
                0 <= k < n && raw_call_id((#[trigger] calls[k]).0) == Some(id) && (is_recent(
                    k,
                    calls.len(),
                ) || raw_first_mutation_id(calls) == Some(id)),
    )
}

/// The ids of the calls in these items that stay.
pub open spec fn raw_selected(items: Seq<JudgedItem>) -> Set<Seq<char>> {
    let calls = items.filter(raw_calling());
    raw_selected_among(calls, calls.len() as int)
}

/// Tests whether an item stays: a call or a result whose id is selected.
pub open spec fn raw_stays(selected: Set<Seq<char>>) -> spec_fn(JudgedItem) -> bool {
    |item: JudgedItem|
        {
            &&& item.0.text_member("type"@) == Some("function_call"@) || item.0.text_member("type"@)
                == Some("function_call_output"@)
            &&& raw_call_id(item.0) matches Some(id) && selected.contains(id)
        }
}

/// Where the first item that is an edit stands.
pub open spec fn raw_boundary(items: Seq<JudgedItem>) -> int {
    first_where(items, raw_mutating())
}

/// The shortened items, each with its verdict.
pub open spec fn raw_compacted(items: Seq<JudgedItem>) -> Seq<JudgedItem> {
    let tail = items.skip(raw_boundary(items));
    items.take(raw_boundary(items)) + tail.filter(raw_stays(raw_selected(tail)))
}

/// The items without their verdicts.
pub open spec fn unjudged(items: Seq<JudgedItem>) -> Seq<Json> {
    Seq::new(items.len(), |i: int| items[i].0)
}

/// The name and the arguments of the tool call that an item of the OpenAI
/// Responses format is, for the tool signals to judge. `None` stands for
/// missing arguments, which are judged as `null`.
pub fn raw_item_call(item: &Value) -> (call: Option<(&str, Option<&Value>)>)
    ensures
        match call {
            Some((name, arguments)) => raw_call(json_of(*item)) == Some(
                (
                    name@,
                    match arguments {
                        Some(inner) => json_of(*inner),
                        None => Json::Null,
                    },
                ),
            ),
            None => raw_call(json_of(*item)) is None,
        },
{
    if !text_member_is(item, "type", "function_call") {
        return None;
    }
    match text_member(item, "name") {
        Some(name) => Some((name, value_get(item, "arguments"))),
        None => None,
    }
}

/// Whether an item of the OpenAI Responses format is a tool call that edits
/// or writes files, where `verdict` is what the tool signals say of the call
/// that [`raw_item_call`] finds in it.
pub fn raw_item_is_mutation(item: &Value, verdict: bool) -> (found: bool)
    ensures
        found == raw_mutates(json_of(*item), verdict),
{
    verdict && raw_item_call(item).is_some()
}

fn verdict_at(verdicts: &Vec<bool>, i: usize) -> (verdict: bool)
    ensures
        verdict == (i < verdicts@.len() && verdicts@[i as int]),
{
    i < verdicts.len() && verdicts[i]
}

fn same_id(left: Option<&str>, right: Option<&str>) -> (same: bool)
    ensures
        same == (left is Some && right is Some && left->0@ == right->0@),
{
    match (left, right) {
        (Some(left), Some(right)) => *left == *right,
        _ => false,
    }
}

/// The ids of the calls, from the item at `at` on, that stay.
fn selected_raw_call_ids(input: &[Value], verdicts: &Vec<bool>, at: usize) -> (selected: IdSet)
    requires
        at <= input@.len(),
    ensures
        selected@ == raw_selected(judged(json_list(input@), verdicts@).skip(at as int)),
{
    let ghost tail = judged(json_list(input@), verdicts@).skip(at as int);
    let ghost calls = tail.filter(raw_calling());
    let mut places: Vec<usize> = Vec::new();
    let mut first: Option<usize> = None;
    let mut i: usize = at;
    assert(tail.take(0).filter(raw_calling()) =~= Seq::<JudgedItem>::empty()) by {
        reveal(Seq::filter);
    }
    while i < input.len()
        invariant
            at <= i <= input.len(),
            tail == judged(json_list(input@), verdicts@).skip(at as int),
            places@.len() == tail.take(i - at).filter(raw_calling()).len(),
            forall|k: int|
                0 <= k < places@.len() ==> at <= #[trigger] places@[k] < i && tail.take(
                    i - at,
                ).filter(raw_calling())[k] == tail[places@[k] - at],
            match first {
                Some(k) => k < places@.len() && first_where(
                    tail.take(i - at).filter(raw_calling()),
                    raw_mutating(),
                ) == k,
                None => first_where(tail.take(i - at).filter(raw_calling()), raw_mutating())
                    == places@.len(),
            },
        decreases input.len() - i,
    {
        let ghost so_far = tail.take(i - at).filter(raw_calling());
        let ghost item = tail[i - at];
        assert(item == (json_of(input@[i as int]), i < verdicts@.len() && verdicts@[i as int]));
        proof {
            assert(tail.take(i + 1 - at) =~= tail.take(i - at).push(item));
            tail.take(i - at).lemma_filter_push(item, raw_calling());
        }
        if text_member_is(&input[i], "type", "function_call") {
            let ghost next = so_far.push(item);
            assert(next.drop_last() =~= so_far);
            proof {
                lemma_first_where(so_far, raw_mutating());
            }
            if first.is_none() && raw_item_is_mutation(&input[i], verdict_at(verdicts, i)) {
                first = Some(places.len());
            }
            places.push(i);
        }
        i += 1;
    }
    assert(tail.take(i - at) =~= tail);
    let first_id: Option<&str> = match first {
        Some(k) => text_member(&input[places[k]], "call_id"),
        None => None,
    };
    assert(match first_id {
        Some(id) => raw_first_mutation_id(calls) == Some(id@),
        None => raw_first_mutation_id(calls) is None,
    });
    let mut selected = IdSet::new();
    let mut k: usize = 0;
    assert(selected@ =~= raw_selected_among(calls, 0));
    while k < places.len()
        invariant
            k <= places@.len(),
            at <= input@.len(),
            tail == judged(json_list(input@), verdicts@).skip(at as int),
            calls == tail.filter(raw_calling()),
            places@.len() == calls.len(),
            forall|k: int|
                0 <= k < places@.len() ==> at <= #[trigger] places@[k] < input@.len() && calls[k]
                    == tail[places@[k] - at],
            match first_id {
                Some(id) => raw_first_mutation_id(calls) == Some(id@),
                None => raw_first_mutation_id(calls) is None,
            },
            selected@ == raw_selected_among(calls, k as int),
        decreases places@.len() - k,
    {
        let item = &input[places[k]];
        assert(calls[k as int].0 == json_of(*item));
        let id = text_member(item, "call_id");
        let recent = places.len() - k <= RECENT_CHECKPOINT_TOOL_CALLS;
        let stays = recent || same_id(id, first_id);
        if let Some(id) = id {
            if stays {
                selected.insert(id);
            }
        }
        proof {
            assert forall|id: Seq<char>|
                selected@.contains(id) <==> raw_selected_among(calls, k + 1).contains(id) by {
                if raw_selected_among(calls, k as int).contains(id) {
                    let j = choose|j: int|
                        0 <= j < k && raw_call_id((#[trigger] calls[j]).0) == Some(id) && (
                        is_recent(j, calls.len()) || raw_first_mutation_id(calls) == Some(id));
                    assert(raw_call_id(calls[j].0) == Some(id));
                }
                if raw_selected_among(calls, k + 1).contains(id) {
                    let j = choose|j: int|
                        0 <= j < k + 1 && raw_call_id((#[trigger] calls[j]).0) == Some(id) && (
                        is_recent(j, calls.len()) || raw_first_mutation_id(calls) == Some(id));
                    if j < k {
                        assert(raw_selected_among(calls, k as int).contains(id));
                    }
                }
                if stays && raw_call_id(calls[k as int].0) == Some(id) {
                    assert(raw_call_id(calls[k as int].0) == Some(id));
                }
            }
            assert(selected@ =~= raw_selected_among(calls, k + 1));
        }
        k += 1;
    }
    selected
}

fn raw_item_stays(item: &Value, selected: &IdSet) -> (stays: bool)
    ensures
        forall|verdict: bool| stays == #[trigger] raw_stays(selected@)((json_of(*item), verdict)),
{
    let kind = text_member_is(item, "type", "function_call") || text_member_is(
        item,
        "type",
        "function_call_output",
    );
    match text_member(item, "call_id") {
        Some(id) => kind && selected.contains(id),
        None => false,
    }
}

/// The items of an OpenAI Responses conversation, shortened from the first
/// edit on. `verdicts[i]` is what the tool signals say of the call that
/// [`raw_item_call`] finds in `input[i]`; it is not read where there is none.
pub fn compact_responses_input(input: &[Value], verdicts: &Vec<bool>) -> (short: Vec<Value>)
    ensures
        json_list(short@) == unjudged(raw_compacted(judged(json_list(input@), verdicts@))),
{
    let ghost items = judged(json_list(input@), verdicts@);
    let mut short: Vec<Value> = Vec::new();
    let mut at: usize = 0;
    assert(json_list(short@) =~= unjudged(items.take(0)));
    while at < input.len() && !raw_item_is_mutation(&input[at], verdict_at(verdicts, at))
        invariant
            at <= input@.len(),
            items == judged(json_list(input@), verdicts@),
            json_list(short@) == unjudged(items.take(at as int)),
            forall|i: int| 0 <= i < at ==> !raw_mutating()(#[trigger] items[i]),
        decreases input@.len() - at,
    {
        let ghost before = short@;
        short.push(input[at].clone());
        assert(json_list(short@) =~= json_list(before).push(items[at as int].0));
        assert(json_list(short@) =~= unjudged(items.take(at + 1)));
        at += 1;
    }
    proof {
        lemma_is_first_where(items, raw_mutating(), at as int);
    }
    let selected = selected_raw_call_ids(input, verdicts, at);
    let ghost tail = items.skip(at as int);
    let ghost stays = raw_stays(selected@);
    let mut i: usize = at;
    assert(tail.take(0).filter(stays) =~= Seq::<JudgedItem>::empty()) by {
        reveal(Seq::filter);
    }
    assert(json_list(short@) =~= unjudged(items.take(at as int) + tail.take(0).filter(stays)));
    while i < input.len()
        invariant
            at <= i <= input@.len(),
            items == judged(json_list(input@), verdicts@),
            tail == items.skip(at as int),
            stays == raw_stays(selected@),
            json_list(short@) == unjudged(items.take(at as int) + tail.take(i - at).filter(stays)),
        decreases input@.len() - i,
    {
        let ghost item = tail[i - at];
        assert(item.0 == json_of(input@[i as int]));
        let keep = raw_item_stays(&input[i], &selected);
        assert(keep == stays((item.0, item.1)));
        proof {
            assert(tail.take(i + 1 - at) =~= tail.take(i - at).push(item));
            tail.take(i - at).lemma_filter_push(item, stays);
        }
        if keep {
            let ghost before = short@;
            short.push(input[i].clone());
            assert(json_list(short@) =~= json_list(before).push(item.0));
            assert(json_list(short@) =~= unjudged(
                items.take(at as int) + tail.take(i + 1 - at).filter(stays),
            ));
        }
        i += 1;
    }
    assert(tail.take(i - at) =~= tail);
    short
}

} // verus!
