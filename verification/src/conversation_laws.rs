//! What a shortened conversation holds, told from its messages, blocks and
//! calls.

use crate::blocks::{
    block_mutates, blocks_of, calls_of, message_contents, message_mutates,
};
use crate::compaction::{
    block_stays, boundary, compacted, first_mutation_id, first_where, is_recent, judged,
    lemma_first_where, lemma_is_first_where, makes_selected_call, mutating_call, mutating_message,
    not_empty, raw_boundary, raw_call, raw_call_id, raw_calling, raw_compacted,
    raw_first_mutation_id, raw_mutates, raw_mutating, raw_selected, raw_stays, selected_ids,
    selected_of, shortened, shortened_tail, unjudged, JudgedItem,
};
use crate::compaction_laws::{
    evidence, law_selected_evidence_stays, lemma_blocks_push, lemma_call_is_block, lemma_calls_push,
    lemma_filter_same, selected_evidence,
};
use crate::json::Json;
use crate::plan_execute::{mutation_ids, shortened_request};
use crate::protocol::{BlockView, CallView, MessageView, RequestView};
use vstd::prelude::*;

verus! {

/// The blocks of a conversation are those of its messages, one message after
/// the other.
pub proof fn law_blocks_of(messages: Seq<MessageView>)
    ensures
        message_contents(messages).len() == messages.len(),
        forall|i: int|
            0 <= i < messages.len() ==> #[trigger] message_contents(messages)[i]
                == messages[i].content,
        blocks_of(messages) == message_contents(messages).flatten(),
{
}

/// The calls among blocks are the blocks that are calls, in order.
pub proof fn law_calls_of(blocks: Seq<BlockView>, block: BlockView)
    ensures
        calls_of(Seq::<BlockView>::empty()).len() == 0,
        block matches BlockView::ToolCall(call) ==> calls_of(blocks.push(block)) == calls_of(
            blocks,
        ).push(call),
        !(block is ToolCall) ==> calls_of(blocks.push(block)) == calls_of(blocks),
{
    lemma_calls_push(blocks, block);
}

/// A message edits where one of its blocks is a call that does.
pub proof fn law_message_mutates(message: MessageView)
    ensures
        message_mutates(message) <==> (exists|j: int|
            0 <= j < message.content.len() && (#[trigger] message.content[j] matches
                BlockView::ToolCall(call) && call.mutating)),
{
    if message_mutates(message) {
        let j = choose|j: int|
            0 <= j < message.content.len() && block_mutates(#[trigger] message.content[j]);
        assert(message.content[j] matches BlockView::ToolCall(call) && call.mutating);
    }
    if exists|j: int|
        0 <= j < message.content.len() && (#[trigger] message.content[j] matches
            BlockView::ToolCall(call) && call.mutating) {
        let j = choose|j: int|
            0 <= j < message.content.len() && (#[trigger] message.content[j] matches
                BlockView::ToolCall(call) && call.mutating);
        assert(block_mutates(message.content[j]));
    }
}

proof fn lemma_block_of_message(messages: Seq<MessageView>, i: int, j: int) -> (n: int)
    requires
        0 <= i < messages.len(),
        0 <= j < messages[i].content.len(),
    ensures
        0 <= n < blocks_of(messages).len(),
        blocks_of(messages)[n] == messages[i].content[j],
    decreases messages.len(),
{
    let rest = messages.drop_last();
    lemma_blocks_push(rest, messages.last());
    assert(rest.push(messages.last()) =~= messages);
    if i < messages.len() - 1 {
        lemma_block_of_message(rest, i, j)
    } else {
        blocks_of(rest).len() + j
    }
}

proof fn lemma_message_of_block(messages: Seq<MessageView>, n: int) -> (place: (int, int))
    requires
        0 <= n < blocks_of(messages).len(),
    ensures
        0 <= place.0 < messages.len(),
        0 <= place.1 < messages[place.0].content.len(),
        blocks_of(messages)[n] == messages[place.0].content[place.1],
    decreases messages.len(),
{
    if messages.len() == 0 {
        assert(message_contents(messages) =~= Seq::empty());
        (0, 0)
    } else {
        let rest = messages.drop_last();
        lemma_blocks_push(rest, messages.last());
        assert(rest.push(messages.last()) =~= messages);
        if n < blocks_of(rest).len() {
            lemma_message_of_block(rest, n)
        } else {
            (messages.len() - 1, n - blocks_of(rest).len())
        }
    }
}

proof fn lemma_block_is_call(blocks: Seq<BlockView>, n: int) -> (k: int)
    requires
        0 <= n < blocks.len(),
        blocks[n] is ToolCall,
    ensures
        0 <= k < calls_of(blocks).len(),
        blocks[n] == BlockView::ToolCall(calls_of(blocks)[k]),
    decreases blocks.len(),
{
    let rest = blocks.drop_last();
    lemma_calls_push(rest, blocks.last());
    assert(rest.push(blocks.last()) =~= blocks);
    if n < blocks.len() - 1 {
        lemma_block_is_call(rest, n)
    } else {
        calls_of(rest).len() as int
    }
}

/// The edits of a conversation are known by the ids of its calls that edit.
pub proof fn law_mutation_ids(messages: Seq<MessageView>, id: Seq<char>)
    ensures
        mutation_ids(messages).contains(id) <==> (exists|i: int, j: int|
            0 <= i < messages.len() && 0 <= j < messages[i].content.len() && (
            #[trigger] messages[i].content[j] matches BlockView::ToolCall(call) && call.mutating
                && call.id == id)),
{
    let calls = calls_of(blocks_of(messages));
    if mutation_ids(messages).contains(id) {
        let k = choose|k: int|
            0 <= k < calls.len() && (#[trigger] calls[k]).id == id && calls[k].mutating;
        lemma_call_is_block(blocks_of(messages), k);
        let n = choose|n: int|
            0 <= n < blocks_of(messages).len() && #[trigger] blocks_of(messages)[n]
                == BlockView::ToolCall(calls[k]);
        let (i, j) = lemma_message_of_block(messages, n);
        assert(messages[i].content[j] matches BlockView::ToolCall(call) && call.mutating && call.id
            == id);
    }
    if exists|i: int, j: int|
        0 <= i < messages.len() && 0 <= j < messages[i].content.len() && (
        #[trigger] messages[i].content[j] matches BlockView::ToolCall(call) && call.mutating
            && call.id == id) {
        let (i, j) = choose|i: int, j: int|
            0 <= i < messages.len() && 0 <= j < messages[i].content.len() && (
            #[trigger] messages[i].content[j] matches BlockView::ToolCall(call) && call.mutating
                && call.id == id);
        let n = lemma_block_of_message(messages, i, j);
        let k = lemma_block_is_call(blocks_of(messages), n);
        assert(calls[k].id == id && calls[k].mutating);
    }
}

/// Whether the call at `f` is the first that edits.
pub open spec fn is_first_edit(calls: Seq<CallView>, f: int) -> bool {
    &&& 0 <= f < calls.len()
    &&& calls[f].mutating
    &&& forall|j: int| 0 <= j < f ==> !(#[trigger] calls[j]).mutating
}

proof fn lemma_first_edit(calls: Seq<CallView>, id: Seq<char>)
    ensures
        first_mutation_id(calls) == Some(id) <==> (exists|f: int| #[trigger]
            is_first_edit(calls, f) && calls[f].id == id),
{
    lemma_first_where(calls, mutating_call());
    let first = first_where(calls, mutating_call());
    if first < calls.len() {
        assert(is_first_edit(calls, first)) by {
            assert forall|j: int| 0 <= j < first implies !(#[trigger] calls[j]).mutating by {
                assert(!mutating_call()(calls[j]));
            }
        }
        assert forall|f: int| #[trigger] is_first_edit(calls, f) implies f == first by {
            if f < first {
                assert(!mutating_call()(calls[f]));
            }
        }
    } else {
        assert forall|f: int| !(#[trigger] is_first_edit(calls, f)) by {
            if is_first_edit(calls, f) {
                assert(!mutating_call()(calls[f]));
            }
        }
    }
}

/// The calls that are selected are the last six and the first that edits, by
/// their ids, however many calls there are.
pub proof fn law_selection(messages: Seq<MessageView>, id: Seq<char>)
    ensures
        ({
            let calls = calls_of(blocks_of(messages));
            selected_ids(messages).contains(id) <==> (exists|k: int|
                0 <= k < calls.len() && (#[trigger] calls[k]).id == id && (k >= calls.len() - 6 || (
                exists|f: int| #[trigger] is_first_edit(calls, f) && calls[f].id == id)))
        }),
        selected_of(calls_of(blocks_of(messages))) == selected_ids(messages),
{
    let calls = calls_of(blocks_of(messages));
    lemma_first_edit(calls, id);
    if selected_ids(messages).contains(id) {
        let k = choose|k: int|
            0 <= k < calls.len() && (#[trigger] calls[k]).id == id && (is_recent(
                k,
                calls.len(),
            ) || first_mutation_id(calls) == Some(id));
        assert(calls[k].id == id);
    }
    if exists|k: int|
        0 <= k < calls.len() && (#[trigger] calls[k]).id == id && (k >= calls.len() - 6 || (
        exists|f: int| #[trigger] is_first_edit(calls, f) && calls[f].id == id)) {
        let k = choose|k: int|
            0 <= k < calls.len() && (#[trigger] calls[k]).id == id && (k >= calls.len() - 6 || (
            exists|f: int| #[trigger] is_first_edit(calls, f) && calls[f].id == id));
        assert(calls[k].id == id);
        assert(is_recent(k, calls.len()) || first_mutation_id(calls) == Some(id));
    }
}

/// Whether the message at `at` is the first that edits; the length stands for
/// none.
pub open spec fn is_edit_boundary(messages: Seq<MessageView>, at: int) -> bool {
    &&& 0 <= at <= messages.len()
    &&& forall|i: int, j: int|
        0 <= i < at && 0 <= j < messages[i].content.len() ==> !(
        #[trigger] messages[i].content[j] matches BlockView::ToolCall(call) && call.mutating)
    &&& at < messages.len() ==> exists|j: int|
        0 <= j < messages[at].content.len() && (#[trigger] messages[at].content[j] matches
            BlockView::ToolCall(call) && call.mutating)
}

proof fn lemma_edit_boundary(messages: Seq<MessageView>, at: int)
    requires
        is_edit_boundary(messages, at),
    ensures
        boundary(messages) == at,
{
    assert forall|i: int| 0 <= i < at implies !mutating_message()(#[trigger] messages[i]) by {
        law_message_mutates(messages[i]);
    }
    if at < messages.len() {
        law_message_mutates(messages[at]);
    }
    lemma_is_first_where(messages, mutating_message(), at);
}

/// A shortened conversation is everything before the first message that edits,
/// and then each message with what stays of it, where anything does: a call or
/// a result where its id is selected, any other block where its message makes a
/// selected call.
pub proof fn law_shortened_conversation(messages: Seq<MessageView>, at: int)
    requires
        is_edit_boundary(messages, at),
    ensures
        ({
            let tail = messages.skip(at);
            let selected = selected_ids(tail);
            compacted(messages) == messages.take(at) + tail.map_values(
                |message: MessageView|
                    MessageView {
                        role: message.role,
                        content: message.content.filter(
                            |block: BlockView|
                                match block {
                                    BlockView::ToolCall(call) => selected.contains(call.id),
                                    BlockView::ToolResult { tool_call_id, .. } => selected.contains(
                                        tool_call_id,
                                    ),
                                    _ => exists|i: int|
                                        0 <= i < message.content.len() && (
                                        #[trigger] message.content[i] matches BlockView::ToolCall(
                                            call,
                                        ) && selected.contains(call.id)),
                                },
                        ),
                    },
            ).filter(|message: MessageView| message.content.len() > 0)
        }),
{
    lemma_edit_boundary(messages, at);
    let tail = messages.skip(at);
    let selected = selected_ids(tail);
    let short = |message: MessageView|
        MessageView {
            role: message.role,
            content: message.content.filter(
                |block: BlockView|
                    match block {
                        BlockView::ToolCall(call) => selected.contains(call.id),
                        BlockView::ToolResult { tool_call_id, .. } => selected.contains(
                            tool_call_id,
                        ),
                        _ => exists|i: int|
                            0 <= i < message.content.len() && (#[trigger] message.content[i] matches
                                BlockView::ToolCall(call) && selected.contains(call.id)),
                    },
            ),
        };
    assert forall|message: MessageView| #[trigger] short(message) == shortened(selected)(
        message,
    ) by {
        let test = |block: BlockView|
            match block {
                BlockView::ToolCall(call) => selected.contains(call.id),
                BlockView::ToolResult { tool_call_id, .. } => selected.contains(tool_call_id),
                _ => exists|i: int|
                    0 <= i < message.content.len() && (#[trigger] message.content[i] matches
                        BlockView::ToolCall(call) && selected.contains(call.id)),
            };
        lemma_filter_same(
            message.content,
            test,
            block_stays(selected, makes_selected_call(selected, message)),
        );
        assert(short(message).content == message.content.filter(test));
    }
    assert(tail.map_values(short) =~= tail.map_values(shortened(selected)));
    let some = |message: MessageView| message.content.len() > 0;
    lemma_filter_same(tail.map_values(short), some, not_empty());
}

/// The last six calls from the first edit on, however many there are, and the
/// first edit stay, with all their results from there on.
pub proof fn law_recent_evidence_stays(
    messages: Seq<MessageView>,
    at: int,
    k: int,
    block: BlockView,
)
    requires
        is_edit_boundary(messages, at),
        0 <= k < calls_of(blocks_of(messages.skip(at))).len(),
        k >= calls_of(blocks_of(messages.skip(at))).len() - 6 || is_first_edit(
            calls_of(blocks_of(messages.skip(at))),
            k,
        ),
        blocks_of(messages.skip(at)).contains(block),
        match block {
            BlockView::ToolCall(call) => call.id == calls_of(blocks_of(messages.skip(at)))[k].id,
            BlockView::ToolResult { tool_call_id, .. } => tool_call_id == calls_of(
                blocks_of(messages.skip(at)),
            )[k].id,
            _ => false,
        },
    ensures
        blocks_of(compacted(messages)).contains(block),
{
    lemma_edit_boundary(messages, at);
    let tail = messages.skip(at);
    let selected = selected_ids(tail);
    let short = shortened_tail(selected, tail);
    let calls = calls_of(blocks_of(tail));
    law_selection(tail, calls[k].id);
    assert(selected.contains(calls[k].id));
    law_selected_evidence_stays(selected, tail);
    let n = choose|n: int| 0 <= n < blocks_of(tail).len() && blocks_of(tail)[n] == block;
    blocks_of(tail).lemma_filter_contains(selected_evidence(selected), n);
    blocks_of(short).lemma_filter_contains_rev(evidence(), block);
    let head = messages.take(at);
    vstd::seq_lib::lemma_flatten_concat(message_contents(head), message_contents(short));
    assert(message_contents(head + short) =~= message_contents(head) + message_contents(short));
    let m = choose|m: int| 0 <= m < blocks_of(short).len() && blocks_of(short)[m] == block;
    assert(blocks_of(compacted(messages))[blocks_of(head).len() + m] == block);
}

/// The call that an item of the OpenAI Responses format is: a function call
/// with a name, and with `null` for missing arguments.
pub proof fn law_raw_call(item: Json, name: Seq<char>, arguments: Json, verdict: bool)
    ensures
        raw_call(item) == Some((name, arguments)) <==> (item matches Json::Object(members)
            && members.contains_key("type"@) && members["type"@] == Json::Text("function_call"@)
            && members.contains_key("name"@) && members["name"@] == Json::Text(name)
            && arguments == if members.contains_key("arguments"@) {
            members["arguments"@]
        } else {
            Json::Null
        }),
        raw_mutates(item, verdict) <==> verdict && (item matches Json::Object(members)
            && members.contains_key("type"@) && members["type"@] == Json::Text("function_call"@)
            && members.contains_key("name"@) && members["name"@] is Text),
{
}

/// Items are judged one by one, and one without a verdict is no edit.
pub proof fn law_judged(items: Seq<Json>, verdicts: Seq<bool>)
    ensures
        judged(items, verdicts).len() == items.len(),
        forall|i: int|
            0 <= i < items.len() ==> (#[trigger] judged(items, verdicts)[i]).0 == items[i] && judged(
                items,
                verdicts,
            )[i].1 == (i < verdicts.len() && verdicts[i]),
        unjudged(judged(items, verdicts)) == items,
{
    assert(unjudged(judged(items, verdicts)) =~= items);
}

/// To take the verdicts off leaves the items, one by one.
pub proof fn law_unjudged(items: Seq<JudgedItem>)
    ensures
        unjudged(items).len() == items.len(),
        forall|i: int| 0 <= i < items.len() ==> #[trigger] unjudged(items)[i] == items[i].0,
{
}

/// Whether an item is a function call.
pub open spec fn is_function_call(item: Json) -> bool {
    item matches Json::Object(members) && members.contains_key("type"@) && members["type"@]
        == Json::Text("function_call"@)
}

/// Whether an item has this text under `call_id`.
pub open spec fn has_call_id(item: Json, id: Seq<char>) -> bool {
    item matches Json::Object(members) && members.contains_key("call_id"@) && members["call_id"@]
        == Json::Text(id)
}

/// Whether an item is a named function call that is judged to edit.
pub open spec fn is_raw_edit(item: JudgedItem) -> bool {
    item.1 && is_function_call(item.0) && (item.0 matches Json::Object(members)
        && members.contains_key("name"@) && members["name"@] is Text)
}

/// Whether the item at `f` is the first that edits.
pub open spec fn is_first_raw_edit(items: Seq<JudgedItem>, f: int) -> bool {
    &&& 0 <= f < items.len()
    &&& is_raw_edit(items[f])
    &&& forall|j: int| 0 <= j < f ==> !is_raw_edit(#[trigger] items[j])
}

proof fn lemma_first_raw_edit(calls: Seq<JudgedItem>, id: Seq<char>)
    ensures
        raw_first_mutation_id(calls) == Some(id) <==> (exists|f: int| #[trigger]
            is_first_raw_edit(calls, f) && has_call_id(calls[f].0, id)),
{
    lemma_first_where(calls, raw_mutating());
    let first = first_where(calls, raw_mutating());
    assert forall|item: JudgedItem| #[trigger] raw_mutating()(item) == is_raw_edit(item) by {}
    if first < calls.len() {
        assert(raw_mutating()(calls[first]));
        assert(is_first_raw_edit(calls, first)) by {
            assert forall|j: int| 0 <= j < first implies !is_raw_edit(#[trigger] calls[j]) by {
                assert(!raw_mutating()(calls[j]));
            }
        }
        assert forall|f: int| #[trigger] is_first_raw_edit(calls, f) implies f == first by {
            if f < first {
                assert(!raw_mutating()(calls[f]));
            }
        }
    } else {
        assert forall|f: int| !(#[trigger] is_first_raw_edit(calls, f)) by {
            if is_first_raw_edit(calls, f) {
                assert(!raw_mutating()(calls[f]));
            }
        }
    }
}

/// The OpenAI Responses calls that are selected are the last six and the first
/// that edits, by their ids where they have one, however many calls there are.
pub proof fn law_raw_selection(items: Seq<JudgedItem>, id: Seq<char>)
    ensures
        ({
            let calls = items.filter(|item: JudgedItem| is_function_call(item.0));
            raw_selected(items).contains(id) <==> (exists|k: int|
                0 <= k < calls.len() && has_call_id((#[trigger] calls[k]).0, id) && (k
                    >= calls.len() - 6 || (exists|f: int| #[trigger]
                    is_first_raw_edit(calls, f) && has_call_id(calls[f].0, id))))
        }),
{
    let test = |item: JudgedItem| is_function_call(item.0);
    let calls = items.filter(test);
    lemma_filter_same(items, test, raw_calling());
    lemma_first_raw_edit(calls, id);
    assert forall|item: Json| raw_call_id(item) == Some(id) <==> #[trigger] has_call_id(
        item,
        id,
    ) by {}
    if raw_selected(items).contains(id) {
        let k = choose|k: int|
            0 <= k < calls.len() && raw_call_id((#[trigger] calls[k]).0) == Some(id) && (
            is_recent(k, calls.len()) || raw_first_mutation_id(calls) == Some(
                id,
            ));
        assert(has_call_id(calls[k].0, id));
    }
    if exists|k: int|
        0 <= k < calls.len() && has_call_id((#[trigger] calls[k]).0, id) && (k >= calls.len() - 6
            || (exists|f: int| #[trigger]
            is_first_raw_edit(calls, f) && has_call_id(calls[f].0, id))) {
        let k = choose|k: int|
            0 <= k < calls.len() && has_call_id((#[trigger] calls[k]).0, id) && (k >= calls.len()
                - 6 || (exists|f: int| #[trigger]
                is_first_raw_edit(calls, f) && has_call_id(calls[f].0, id)));
        assert(has_call_id(calls[k].0, id));
        assert(raw_call_id(calls[k].0) == Some(id));
        assert(is_recent(k, calls.len()) || raw_first_mutation_id(calls) == Some(
            id,
        ));
    }
}

/// Whether the item at `at` is the first that edits; the length stands for
/// none.
pub open spec fn is_raw_edit_boundary(items: Seq<JudgedItem>, at: int) -> bool {
    &&& 0 <= at <= items.len()
    &&& forall|i: int| 0 <= i < at ==> !is_raw_edit(#[trigger] items[i])
    &&& at < items.len() ==> is_raw_edit(items[at])
}

proof fn lemma_raw_edit_boundary(items: Seq<JudgedItem>, at: int)
    requires
        is_raw_edit_boundary(items, at),
    ensures
        raw_boundary(items) == at,
{
    assert forall|i: int| 0 <= i < at implies !raw_mutating()(#[trigger] items[i]) by {
        assert(!is_raw_edit(items[i]));
    }
    lemma_is_first_where(items, raw_mutating(), at);
}

/// Whether an item is a function call or the output of one, under a selected
/// id.
pub open spec fn is_selected_item(selected: Set<Seq<char>>, item: Json) -> bool {
    item matches Json::Object(members) && members.contains_key("type"@) && (members["type"@]
        == Json::Text("function_call"@) || members["type"@] == Json::Text("function_call_output"@))
        && members.contains_key("call_id"@) && (members["call_id"@] matches Json::Text(id)
        && selected.contains(id))
}

/// Shortened OpenAI Responses items are all items before the first edit, and
/// from there on the calls and outputs under a selected id.
pub proof fn law_shortened_items(items: Seq<JudgedItem>, at: int)
    requires
        is_raw_edit_boundary(items, at),
    ensures
        ({
            let tail = items.skip(at);
            let selected = raw_selected(tail);
            raw_compacted(items) == items.take(at) + tail.filter(
                |item: JudgedItem| is_selected_item(selected, item.0),
            )
        }),
{
    lemma_raw_edit_boundary(items, at);
    let tail = items.skip(at);
    let selected = raw_selected(tail);
    let test = |item: JudgedItem| is_selected_item(selected, item.0);
    lemma_filter_same(tail, test, raw_stays(selected));
}

/// The last six OpenAI Responses calls from the first edit on, however many
/// there are, and the first edit stay where they have an id, with every call
/// and output from there on under the same id.
pub proof fn law_recent_items_stay(
    items: Seq<JudgedItem>,
    at: int,
    k: int,
    id: Seq<char>,
    n: int,
)
    requires
        is_raw_edit_boundary(items, at),
        at <= n < items.len(),
        ({
            let calls = items.skip(at).filter(|item: JudgedItem| is_function_call(item.0));
            &&& 0 <= k < calls.len()
            &&& k >= calls.len() - 6 || is_first_raw_edit(calls, k)
            &&& has_call_id(calls[k].0, id)
        }),
        has_call_id(items[n].0, id),
        is_function_call(items[n].0) || (items[n].0 matches Json::Object(members)
            && members.contains_key("type"@) && members["type"@] == Json::Text(
            "function_call_output"@,
        )),
    ensures
        raw_compacted(items).contains(items[n]),
{
    let tail = items.skip(at);
    let selected = raw_selected(tail);
    let calls = tail.filter(|item: JudgedItem| is_function_call(item.0));
    law_raw_selection(tail, id);
    assert(has_call_id(calls[k].0, id));
    assert(selected.contains(id));
    law_shortened_items(items, at);
    let test = |item: JudgedItem| is_selected_item(selected, item.0);
    assert(tail[n - at] == items[n]);
    tail.lemma_filter_contains(test, n - at);
    let kept = tail.filter(test);
    let m = choose|m: int| 0 <= m < kept.len() && kept[m] == items[n];
    assert(raw_compacted(items)[at + m] == items[n]);
}

/// A shortened request differs from the request in its messages and in the
/// conversation of the preserved OpenAI Responses body, which are shortened.
pub proof fn law_shortened_request(request: RequestView, verdicts: Seq<bool>)
    ensures
        ({
            let short = shortened_request(request, verdicts);
            &&& short.messages == compacted(request.messages)
            &&& short.model == request.model
            &&& short.instructions == request.instructions
            &&& short.stream == request.stream
            &&& short.tool_choice == request.tool_choice
            &&& short.metadata == request.metadata
            &&& short.identity == request.identity
            &&& short.detail == request.detail
            &&& short.llm_detail == request.llm_detail
            &&& short.requests.others == request.requests.others
            &&& match request.responses_input() {
                Some(items) => short.requests.responses == Some(
                    Json::Object(
                        request.requests.responses->0->Object_0.insert(
                            "input"@,
                            Json::List(unjudged(raw_compacted(judged(items, verdicts)))),
                        ),
                    ),
                ),
                None => short.requests.responses == request.requests.responses,
            }
        }),
{
}

} // verus!
