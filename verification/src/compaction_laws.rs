//! What holds of every shortened conversation.

use crate::blocks::{
    as_call, block_mutates, blocks_of, calls_of, message_contents, message_mutates,
};
use crate::compaction::{
    block_stays, boundary, compacted, first_mutation_id, first_where, is_recent,
    lemma_first_where, lemma_is_first_where, makes_selected_call, mutating_call, mutating_message,
    not_empty, raw_boundary, raw_call_id, raw_calling, raw_compacted, raw_first_mutation_id,
    raw_mutating, raw_selected, raw_stays, selected_ids, selected_of, shortened, shortened_tail,
    JudgedItem, RECENT_CHECKPOINT_TOOL_CALLS,
};
use crate::protocol::{BlockView, CallView, MessageView};
use vstd::prelude::*;

verus! {

proof fn lemma_filter_all<A>(elements: Seq<A>, test: spec_fn(A) -> bool)
    requires
        forall|i: int| 0 <= i < elements.len() ==> test(#[trigger] elements[i]),
    ensures
        elements.filter(test) == elements,
    decreases elements.len(),
{
    if elements.len() > 0 {
        let rest = elements.drop_last();
        assert forall|i: int| 0 <= i < rest.len() implies test(#[trigger] rest[i]) by {
            assert(rest[i] == elements[i]);
        }
        lemma_filter_all(rest, test);
        rest.lemma_filter_push(elements.last(), test);
        assert(rest.push(elements.last()) =~= elements);
        assert(test(elements[elements.len() - 1]));
    } else {
        reveal(Seq::filter);
        assert(elements.filter(test) =~= elements);
    }
}

/// Two tests that say the same filter the same.
pub proof fn lemma_filter_same<A>(
    elements: Seq<A>,
    one: spec_fn(A) -> bool,
    other: spec_fn(A) -> bool,
)
    requires
        forall|i: int|
            0 <= i < elements.len() ==> one(#[trigger] elements[i]) == other(elements[i]),
    ensures
        elements.filter(one) == elements.filter(other),
    decreases elements.len(),
{
    if elements.len() > 0 {
        let rest = elements.drop_last();
        assert forall|i: int| 0 <= i < rest.len() implies one(#[trigger] rest[i]) == other(
            rest[i],
        ) by {
            assert(rest[i] == elements[i]);
        }
        lemma_filter_same(rest, one, other);
        rest.lemma_filter_push(elements.last(), one);
        rest.lemma_filter_push(elements.last(), other);
        assert(rest.push(elements.last()) =~= elements);
        assert(one(elements[elements.len() - 1]) == other(elements[elements.len() - 1]));
    } else {
        reveal(Seq::filter);
        assert(elements.filter(one) =~= elements.filter(other));
    }
}

/// Where an element that passes the filter stands among those that pass: no
/// farther from the end than before.
proof fn lemma_filter_place<A>(elements: Seq<A>, test: spec_fn(A) -> bool, at: int)
    requires
        0 <= at < elements.len(),
        test(elements[at]),
    ensures
        0 <= elements.take(at).filter(test).len() < elements.filter(test).len(),
        elements.filter(test)[elements.take(at).filter(test).len() as int] == elements[at],
        elements.filter(test).take(elements.take(at).filter(test).len() as int)
            == elements.take(at).filter(test),
        elements.filter(test).len() - elements.take(at).filter(test).len() <= elements.len() - at,
{
    let head = elements.take(at);
    let tail = elements.skip(at + 1);
    assert(elements =~= head.push(elements[at]) + tail);
    Seq::filter_distributes_over_add(head.push(elements[at]), tail, test);
    head.lemma_filter_push(elements[at], test);
    tail.lemma_filter_len(test);
    assert(elements.filter(test) =~= head.filter(test).push(elements[at]) + tail.filter(test));
    assert(elements.filter(test).take(head.filter(test).len() as int) =~= head.filter(test));
}

/// The first that passes `sought` is still the first after a filter that it passes.
proof fn lemma_first_stays_first<A>(
    elements: Seq<A>,
    test: spec_fn(A) -> bool,
    sought: spec_fn(A) -> bool,
)
    requires
        first_where(elements, sought) < elements.len(),
        test(elements[first_where(elements, sought)]),
    ensures
        first_where(elements.filter(test), sought) < elements.filter(test).len(),
        elements.filter(test)[first_where(elements.filter(test), sought)]
            == elements[first_where(elements, sought)],
{
    lemma_first_where(elements, sought);
    let first = first_where(elements, sought);
    let head = elements.take(first);
    let place = head.filter(test).len() as int;
    lemma_filter_place(elements, test, first);
    assert forall|i: int| 0 <= i < place implies !sought(#[trigger] elements.filter(test)[i]) by {
        assert(elements.filter(test).take(place)[i] == head.filter(test)[i]);
        assert(head.filter(test).contains(head.filter(test)[i]));
        head.lemma_filter_contains_rev(test, head.filter(test)[i]);
        let j = choose|j: int| 0 <= j < head.len() && head[j] == head.filter(test)[i];
        assert(!sought(elements[j]));
    }
    lemma_is_first_where(elements.filter(test), sought, place);
}

proof fn lemma_filters_commute<A>(
    elements: Seq<A>,
    one: spec_fn(A) -> bool,
    other: spec_fn(A) -> bool,
)
    ensures
        elements.filter(one).filter(other) == elements.filter(other).filter(one),
    decreases elements.len(),
{
    if elements.len() > 0 {
        let rest = elements.drop_last();
        let last = elements.last();
        lemma_filters_commute(rest, one, other);
        assert(rest.push(last) =~= elements);
        rest.lemma_filter_push(last, one);
        rest.lemma_filter_push(last, other);
        rest.filter(one).lemma_filter_push(last, other);
        rest.filter(other).lemma_filter_push(last, one);
    } else {
        reveal(Seq::filter);
    }
}

/// Tests whether a block is a tool call or a result.
pub open spec fn evidence() -> spec_fn(BlockView) -> bool {
    |block: BlockView| block is ToolCall || block is ToolResult
}

/// Tests whether a block is a tool call or a result, under a selected id.
pub open spec fn selected_evidence(selected: Set<Seq<char>>) -> spec_fn(BlockView) -> bool {
    |block: BlockView|
        match block {
            BlockView::ToolCall(call) => selected.contains(call.id),
            BlockView::ToolResult { tool_call_id, .. } => selected.contains(tool_call_id),
            _ => false,
        }
}

/// Tests whether a call has a selected id.
pub open spec fn selected_call(selected: Set<Seq<char>>) -> spec_fn(CallView) -> bool {
    |call: CallView| selected.contains(call.id)
}

/// The calls of one more block.
pub proof fn lemma_calls_push(blocks: Seq<BlockView>, block: BlockView)
    ensures
        calls_of(blocks.push(block)) == match block {
            BlockView::ToolCall(call) => calls_of(blocks).push(call),
            _ => calls_of(blocks),
        },
{
    let all = blocks.push(block);
    all.lemma_filter_map_take_succ(as_call(), blocks.len() as int);
    assert(all.take(blocks.len() as int) =~= blocks);
    assert(all.take(all.len() as int) =~= all);
    match block {
        BlockView::ToolCall(call) => {
            assert(calls_of(blocks) + seq![call] =~= calls_of(blocks).push(call));
        },
        _ => {
            assert(calls_of(blocks) + Seq::<CallView>::empty() =~= calls_of(blocks));
        },
    }
}

proof fn lemma_kept_blocks(selected: Set<Seq<char>>, calling: bool, blocks: Seq<BlockView>)
    ensures
        blocks.filter(block_stays(selected, calling)).filter(evidence()) == blocks.filter(
            selected_evidence(selected),
        ),
    decreases blocks.len(),
{
    if blocks.len() > 0 {
        let rest = blocks.drop_last();
        let last = blocks.last();
        lemma_kept_blocks(selected, calling, rest);
        assert(rest.push(last) =~= blocks);
        rest.lemma_filter_push(last, block_stays(selected, calling));
        rest.lemma_filter_push(last, selected_evidence(selected));
        rest.filter(block_stays(selected, calling)).lemma_filter_push(last, evidence());
    } else {
        reveal(Seq::filter);
    }
}

/// The blocks of one more message follow those of the others.
pub proof fn lemma_blocks_push(messages: Seq<MessageView>, message: MessageView)
    ensures
        blocks_of(messages.push(message)) == blocks_of(messages) + message.content,
{
    message_contents(messages).lemma_flatten_push(message.content);
    assert(message_contents(messages.push(message)) =~= message_contents(messages).push(
        message.content,
    ));
}

proof fn lemma_shortened_push(
    selected: Set<Seq<char>>,
    messages: Seq<MessageView>,
    message: MessageView,
)
    ensures
        shortened_tail(selected, messages.push(message)) == if shortened(selected)(
            message,
        ).content.len() > 0 {
            shortened_tail(selected, messages).push(shortened(selected)(message))
        } else {
            shortened_tail(selected, messages)
        },
{
    let short = messages.map_values(shortened(selected));
    assert(messages.push(message).map_values(shortened(selected)) =~= short.push(
        shortened(selected)(message),
    ));
    short.lemma_filter_push(shortened(selected)(message), not_empty());
}

/// From the first edit on, the tool calls and results that stay are those
/// under a selected id, every one of them, in order.
pub proof fn law_selected_evidence_stays(selected: Set<Seq<char>>, tail: Seq<MessageView>)
    ensures
        blocks_of(shortened_tail(selected, tail)).filter(evidence()) == blocks_of(tail).filter(
            selected_evidence(selected),
        ),
    decreases tail.len(),
{
    if tail.len() > 0 {
        let rest = tail.drop_last();
        let last = tail.last();
        let short = shortened(selected)(last);
        law_selected_evidence_stays(selected, rest);
        assert(rest.push(last) =~= tail);
        lemma_blocks_push(rest, last);
        lemma_shortened_push(selected, rest, last);
        lemma_blocks_push(shortened_tail(selected, rest), short);
        lemma_kept_blocks(selected, makes_selected_call(selected, last), last.content);
        Seq::filter_distributes_over_add(
            blocks_of(rest),
            last.content,
            selected_evidence(selected),
        );
        Seq::filter_distributes_over_add(
            blocks_of(shortened_tail(selected, rest)),
            short.content,
            evidence(),
        );
        if short.content.len() == 0 {
            assert(blocks_of(shortened_tail(selected, rest)) + short.content =~= blocks_of(
                shortened_tail(selected, rest),
            ));
        }
    } else {
        reveal(Seq::filter);
        assert(message_contents(tail) =~= Seq::empty());
        assert(tail.map_values(shortened(selected)) =~= Seq::empty());
        assert(message_contents(shortened_tail(selected, tail)) =~= Seq::empty());
    }
}

proof fn lemma_calls_are_evidence(blocks: Seq<BlockView>)
    ensures
        calls_of(blocks.filter(evidence())) == calls_of(blocks),
    decreases blocks.len(),
{
    if blocks.len() > 0 {
        let rest = blocks.drop_last();
        let last = blocks.last();
        lemma_calls_are_evidence(rest);
        assert(rest.push(last) =~= blocks);
        rest.lemma_filter_push(last, evidence());
        lemma_calls_push(rest, last);
        lemma_calls_push(rest.filter(evidence()), last);
    } else {
        reveal(Seq::filter);
        assert(blocks.filter(evidence()) =~= blocks);
    }
}

proof fn lemma_calls_of_selected(selected: Set<Seq<char>>, blocks: Seq<BlockView>)
    ensures
        calls_of(blocks.filter(selected_evidence(selected))) == calls_of(blocks).filter(
            selected_call(selected),
        ),
    decreases blocks.len(),
{
    if blocks.len() > 0 {
        let rest = blocks.drop_last();
        let last = blocks.last();
        lemma_calls_of_selected(selected, rest);
        assert(rest.push(last) =~= blocks);
        rest.lemma_filter_push(last, selected_evidence(selected));
        lemma_calls_push(rest, last);
        lemma_calls_push(rest.filter(selected_evidence(selected)), last);
        if let BlockView::ToolCall(call) = last {
            calls_of(rest).lemma_filter_push(call, selected_call(selected));
        }
    } else {
        reveal(Seq::filter);
        assert(blocks.filter(selected_evidence(selected)) =~= blocks);
        assert(calls_of(blocks) =~= Seq::empty());
        assert(calls_of(blocks).filter(selected_call(selected)) =~= Seq::empty());
    }
}

proof fn lemma_calls_of_shortened(selected: Set<Seq<char>>, tail: Seq<MessageView>)
    ensures
        calls_of(blocks_of(shortened_tail(selected, tail))) == calls_of(blocks_of(tail)).filter(
            selected_call(selected),
        ),
{
    law_selected_evidence_stays(selected, tail);
    lemma_calls_are_evidence(blocks_of(shortened_tail(selected, tail)));
    lemma_calls_of_selected(selected, blocks_of(tail));
}

/// A conversation without an edit stays as it is.
pub proof fn law_no_edit_no_change(messages: Seq<MessageView>)
    requires
        forall|i: int| 0 <= i < messages.len() ==> !message_mutates(#[trigger] messages[i]),
    ensures
        compacted(messages) == messages,
{
    assert forall|i: int| 0 <= i < messages.len() implies !mutating_message()(
        #[trigger] messages[i],
    ) by {
        assert(!message_mutates(messages[i]));
    }
    lemma_is_first_where(messages, mutating_message(), messages.len() as int);
    reveal(Seq::filter);
    let tail = messages.skip(messages.len() as int);
    assert(tail.map_values(shortened(selected_ids(tail))) =~= Seq::empty());
    assert(compacted(messages) =~= messages);
}

/// Everything before the first edit stays.
pub proof fn law_prefix_stays(messages: Seq<MessageView>)
    ensures
        0 <= boundary(messages) <= messages.len(),
        messages.take(boundary(messages)).is_prefix_of(compacted(messages)),
{
    lemma_first_where(messages, mutating_message());
    let kept = messages.take(boundary(messages));
    assert(compacted(messages).subrange(0, kept.len() as int) =~= kept);
}

/// The first edit and the most recent calls are among the selected calls.
pub proof fn law_first_edit_and_recent_calls_are_selected(calls: Seq<CallView>, k: int)
    requires
        0 <= k < calls.len(),
        is_recent(k, calls.len()) || k == first_where(calls, mutating_call()),
    ensures
        selected_of(calls).contains(calls[k].id),
{
    assert(calls[k].id == calls[k].id);
}

/// No more calls are selected than the most recent ones and the first edit.
pub proof fn law_few_calls_are_selected(calls: Seq<CallView>)
    ensures
        selected_of(calls).finite(),
        selected_of(calls).len() <= RECENT_CHECKPOINT_TOOL_CALLS + 1,
{
    let start = if calls.len() > RECENT_CHECKPOINT_TOOL_CALLS {
        calls.len() - RECENT_CHECKPOINT_TOOL_CALLS
    } else {
        0
    };
    let recent = Seq::new((calls.len() - start) as nat, |i: int| calls[start + i].id);
    recent.lemma_cardinality_of_set();
    vstd::seq_lib::seq_to_set_is_finite(recent);
    let all = match first_mutation_id(calls) {
        Some(id) => recent.to_set().insert(id),
        None => recent.to_set(),
    };
    assert forall|id: Seq<char>| selected_of(calls).contains(id) implies all.contains(id) by {
        let k = choose|k: int|
            0 <= k < calls.len() && (#[trigger] calls[k]).id == id && (is_recent(k, calls.len())
                || first_mutation_id(calls) == Some(id));
        if is_recent(k, calls.len()) {
            assert(recent[k - start] == id);
        }
    }
    vstd::set_lib::lemma_len_subset(selected_of(calls), all);
}

proof fn lemma_selection_survives(calls: Seq<CallView>, id: Seq<char>)
    requires
        selected_of(calls).contains(id),
    ensures
        selected_of(calls.filter(selected_call(selected_of(calls)))).contains(id),
{
    let test = selected_call(selected_of(calls));
    let kept = calls.filter(test);
    let k = choose|k: int|
        0 <= k < calls.len() && (#[trigger] calls[k]).id == id && (is_recent(k, calls.len())
            || first_mutation_id(calls) == Some(id));
    lemma_filter_place(calls, test, k);
    let place = calls.take(k).filter(test).len() as int;
    assert(kept[place].id == id);
    if !is_recent(k, calls.len()) {
        lemma_first_where(calls, mutating_call());
        let first = first_where(calls, mutating_call());
        assert(calls[first].id == id);
        lemma_first_stays_first(calls, test, mutating_call());
    }
}

proof fn lemma_first_message_stays(tail: Seq<MessageView>)
    requires
        tail.len() > 0,
        message_mutates(tail[0]),
    ensures
        shortened_tail(selected_ids(tail), tail).len() > 0,
        message_mutates(shortened_tail(selected_ids(tail), tail)[0]),
{
    let selected = selected_ids(tail);
    let calls = calls_of(blocks_of(tail));
    let first_message = tail.take(1);
    assert(tail =~= first_message + tail.skip(1));
    vstd::seq_lib::lemma_flatten_concat(
        message_contents(first_message),
        message_contents(tail.skip(1)),
    );
    assert(message_contents(tail) =~= message_contents(first_message) + message_contents(
        tail.skip(1),
    ));
    lemma_blocks_push(Seq::empty(), tail[0]);
    assert(message_contents(Seq::empty()) =~= Seq::empty());
    assert(Seq::empty().push(tail[0]) =~= first_message);
    assert(blocks_of(first_message) =~= tail[0].content);
    let content = tail[0].content;
    let at = choose|i: int| 0 <= i < content.len() && block_mutates(#[trigger] content[i]);
    lemma_edit_among_calls(content, blocks_of(tail.skip(1)), at);
    let first = first_where(calls, mutating_call());
    lemma_first_where(calls, mutating_call());
    let own = calls_of(content);
    let edit = calls[first];
    law_first_edit_and_recent_calls_are_selected(calls, first);
    assert(own[first] == edit);
    lemma_call_is_block(content, first);
    let place = choose|i: int|
        0 <= i < content.len() && #[trigger] content[i] == BlockView::ToolCall(edit);
    assert(content[place] matches BlockView::ToolCall(call) && selected.contains(call.id));
    let stays = block_stays(selected, makes_selected_call(selected, tail[0]));
    lemma_filter_place(content, stays, place);
    let short = shortened(selected)(tail[0]);
    let kept = content.take(place).filter(stays).len() as int;
    assert(block_mutates(short.content[kept]));
    let all = tail.map_values(shortened(selected));
    assert(all[0] == short);
    lemma_filter_place(all, not_empty(), 0);
    assert(all.take(0).filter(not_empty()) =~= Seq::<MessageView>::empty()) by {
        reveal(Seq::filter);
    }
}

proof fn lemma_calls_add(one: Seq<BlockView>, other: Seq<BlockView>)
    ensures
        calls_of(one + other) == calls_of(one) + calls_of(other),
    decreases other.len(),
{
    if other.len() > 0 {
        let rest = other.drop_last();
        lemma_calls_add(one, rest);
        lemma_calls_push(one + rest, other.last());
        lemma_calls_push(rest, other.last());
        assert((one + rest).push(other.last()) =~= one + other);
        assert(rest.push(other.last()) =~= other);
        assert(calls_of(one + other) =~= calls_of(one) + calls_of(other));
    } else {
        assert(one + other =~= one);
        assert(calls_of(other) =~= Seq::empty());
        assert(calls_of(one) + calls_of(other) =~= calls_of(one));
    }
}

/// A call is one of the blocks.
pub proof fn lemma_call_is_block(blocks: Seq<BlockView>, k: int)
    requires
        0 <= k < calls_of(blocks).len(),
    ensures
        exists|i: int|
            0 <= i < blocks.len() && #[trigger] blocks[i] == BlockView::ToolCall(
                calls_of(blocks)[k],
            ),
    decreases blocks.len(),
{
    if blocks.len() > 0 {
        let rest = blocks.drop_last();
        lemma_calls_push(rest, blocks.last());
        assert(rest.push(blocks.last()) =~= blocks);
        if k < calls_of(rest).len() {
            lemma_call_is_block(rest, k);
            let i = choose|i: int|
                0 <= i < rest.len() && #[trigger] rest[i] == BlockView::ToolCall(
                    calls_of(rest)[k],
                );
            assert(blocks[i] == rest[i]);
        } else {
            assert(blocks[blocks.len() - 1] == BlockView::ToolCall(calls_of(blocks)[k]));
        }
    }
}

/// An edit among the blocks bounds where the first edit among the calls stands.
proof fn lemma_edit_among_calls(content: Seq<BlockView>, others: Seq<BlockView>, at: int)
    requires
        0 <= at < content.len(),
        block_mutates(content[at]),
    ensures
        0 <= first_where(calls_of(content + others), mutating_call()) < calls_of(content).len(),
        first_where(calls_of(content + others), mutating_call()) < calls_of(
            content + others,
        ).len(),
        calls_of(content + others)[first_where(calls_of(content + others), mutating_call())]
            == calls_of(content)[first_where(calls_of(content + others), mutating_call())],
{
    let head = content.take(at);
    let tail = content.skip(at + 1);
    let edit = content[at]->ToolCall_0;
    assert(content =~= head.push(content[at]) + tail);
    lemma_calls_push(head, content[at]);
    lemma_calls_add(head.push(content[at]), tail);
    lemma_calls_add(content, others);
    let k = calls_of(head).len() as int;
    let calls = calls_of(content + others);
    assert(calls_of(content)[k] == edit);
    assert(calls[k] == edit);
    lemma_first_where(calls, mutating_call());
    if first_where(calls, mutating_call()) > k {
        assert(!mutating_call()(calls[k]));
    }
}

/// Blocks that a shortened message holds stay once more.
proof fn lemma_message_stays(
    selected: Set<Seq<char>>,
    wider: Set<Seq<char>>,
    message: MessageView,
)
    requires
        selected.subset_of(wider),
    ensures
        shortened(wider)(shortened(selected)(message)) == shortened(selected)(message),
{
    let calling = makes_selected_call(selected, message);
    let stays = block_stays(selected, calling);
    let short = shortened(selected)(message);
    let again = makes_selected_call(wider, short);
    if calling {
        let i = choose|i: int|
            0 <= i < message.content.len() && ((#[trigger] message.content[i]) matches BlockView::ToolCall(
                call,
            ) && selected.contains(call.id));
        lemma_filter_place(message.content, stays, i);
        let place = message.content.take(i).filter(stays).len() as int;
        assert(short.content[place] matches BlockView::ToolCall(call) && wider.contains(call.id));
    }
    assert forall|i: int| 0 <= i < short.content.len() implies block_stays(wider, again)(
        #[trigger] short.content[i],
    ) by {
        message.content.lemma_filter_pred(stays, i);
    }
    lemma_filter_all(short.content, block_stays(wider, again));
}

/// To shorten a conversation once more changes nothing.
pub proof fn law_shortening_is_idempotent(messages: Seq<MessageView>)
    ensures
        compacted(compacted(messages)) == compacted(messages),
{
    let at = boundary(messages);
    lemma_first_where(messages, mutating_message());
    let head = messages.take(at);
    let tail = messages.skip(at);
    let selected = selected_ids(tail);
    let short = shortened_tail(selected, tail);
    let result = compacted(messages);
    if at == messages.len() {
        assert forall|i: int| 0 <= i < messages.len() implies !message_mutates(
            #[trigger] messages[i],
        ) by {
            assert(!mutating_message()(messages[i]));
        }
        law_no_edit_no_change(messages);
    } else {
        assert(message_mutates(tail[0]));
        lemma_first_message_stays(tail);
        assert forall|i: int| 0 <= i < at implies !mutating_message()(#[trigger] result[i]) by {
            assert(result[i] == messages[i]);
        }
        assert(result[at] == short[0]);
        lemma_is_first_where(result, mutating_message(), at);
        assert(result.skip(at) =~= short);
        assert(result.take(at) =~= head);
        let wider = selected_ids(short);
        lemma_calls_of_shortened(selected, tail);
        assert forall|id: Seq<char>| selected.contains(id) implies wider.contains(id) by {
            lemma_selection_survives(calls_of(blocks_of(tail)), id);
        }
        let all = tail.map_values(shortened(selected));
        let again = short.map_values(shortened(wider));
        assert forall|i: int| 0 <= i < short.len() implies again[i] == #[trigger] short[i]
            && not_empty()(short[i]) by {
            all.lemma_filter_pred(not_empty(), i);
            assert(short.contains(short[i]));
            all.lemma_filter_contains_rev(not_empty(), short[i]);
            let j = choose|j: int| 0 <= j < all.len() && all[j] == short[i];
            lemma_message_stays(selected, wider, tail[j]);
        }
        assert(again =~= short);
        lemma_filter_all(short, not_empty());
        assert(compacted(result) =~= result);
    }
}

/// OpenAI Responses items without an edit stay as they are.
pub proof fn law_raw_no_edit_no_change(items: Seq<JudgedItem>)
    requires
        forall|i: int| 0 <= i < items.len() ==> !raw_mutating()(#[trigger] items[i]),
    ensures
        raw_compacted(items) == items,
{
    lemma_is_first_where(items, raw_mutating(), items.len() as int);
    reveal(Seq::filter);
    let tail = items.skip(items.len() as int);
    assert(tail =~= Seq::empty());
    assert(raw_compacted(items) =~= items);
}

/// All OpenAI Responses items before the first edit stay.
pub proof fn law_raw_prefix_stays(items: Seq<JudgedItem>)
    ensures
        0 <= raw_boundary(items) <= items.len(),
        items.take(raw_boundary(items)).is_prefix_of(raw_compacted(items)),
{
    lemma_first_where(items, raw_mutating());
    let kept = items.take(raw_boundary(items));
    assert(raw_compacted(items).subrange(0, kept.len() as int) =~= kept);
}

/// Among the OpenAI Responses calls too, the first edit and the most recent
/// calls are selected, where they have an id.
pub proof fn law_raw_first_edit_and_recent_calls_are_selected(items: Seq<JudgedItem>, k: int)
    requires
        0 <= k < items.filter(raw_calling()).len(),
        raw_call_id(items.filter(raw_calling())[k].0) is Some,
        is_recent(k, items.filter(raw_calling()).len()) || k == first_where(
            items.filter(raw_calling()),
            raw_mutating(),
        ),
    ensures
        raw_selected(items).contains(raw_call_id(items.filter(raw_calling())[k].0)->0),
{
    let calls = items.filter(raw_calling());
    assert(raw_call_id(calls[k].0) == raw_call_id(calls[k].0));
}

/// Nor are more OpenAI Responses calls selected than the most recent ones and
/// the first edit.
pub proof fn law_raw_few_calls_are_selected(items: Seq<JudgedItem>)
    ensures
        raw_selected(items).finite(),
        raw_selected(items).len() <= RECENT_CHECKPOINT_TOOL_CALLS + 1,
{
    let calls = items.filter(raw_calling());
    let start = if calls.len() > RECENT_CHECKPOINT_TOOL_CALLS {
        calls.len() - RECENT_CHECKPOINT_TOOL_CALLS
    } else {
        0
    };
    let recent = Seq::new((calls.len() - start) as nat, |i: int| raw_call_id(calls[start + i].0)->0);
    recent.lemma_cardinality_of_set();
    vstd::seq_lib::seq_to_set_is_finite(recent);
    let all = match raw_first_mutation_id(calls) {
        Some(id) => recent.to_set().insert(id),
        None => recent.to_set(),
    };
    assert forall|id: Seq<char>| raw_selected(items).contains(id) implies all.contains(id) by {
        let k = choose|k: int|
            0 <= k < calls.len() && raw_call_id((#[trigger] calls[k]).0) == Some(id) && (is_recent(
                k,
                calls.len(),
            ) || raw_first_mutation_id(calls) == Some(id));
        if is_recent(k, calls.len()) {
            assert(recent[k - start] == id);
        }
    }
    vstd::set_lib::lemma_len_subset(raw_selected(items), all);
}

/// To shorten the OpenAI Responses items once more changes nothing, where
/// their first edit has an id.
pub proof fn law_raw_shortening_is_idempotent(items: Seq<JudgedItem>)
    requires
        raw_boundary(items) < items.len() ==> raw_call_id(items[raw_boundary(items)].0) is Some,
    ensures
        raw_compacted(raw_compacted(items)) == raw_compacted(items),
{
    let at = raw_boundary(items);
    lemma_first_where(items, raw_mutating());
    let tail = items.skip(at);
    let selected = raw_selected(tail);
    let stays = raw_stays(selected);
    let short = tail.filter(stays);
    let result = raw_compacted(items);
    if at == items.len() {
        law_raw_no_edit_no_change(items);
    } else {
        let calls = tail.filter(raw_calling());
        let edit = tail[0];
        assert(raw_mutating()(edit));
        lemma_filter_place(tail, raw_calling(), 0);
        assert(tail.take(0).filter(raw_calling()) =~= Seq::<JudgedItem>::empty()) by {
            reveal(Seq::filter);
        }
        assert(calls[0] == edit);
        lemma_is_first_where(calls, raw_mutating(), 0);
        law_raw_first_edit_and_recent_calls_are_selected(tail, 0);
        lemma_filter_place(tail, stays, 0);
        assert(tail.take(0).filter(stays) =~= Seq::<JudgedItem>::empty()) by {
            reveal(Seq::filter);
        }
        assert(short[0] == edit);
        assert forall|i: int| 0 <= i < at implies !raw_mutating()(#[trigger] result[i]) by {
            assert(result[i] == items[i]);
        }
        assert(result[at] == edit);
        lemma_is_first_where(result, raw_mutating(), at);
        assert(result.skip(at) =~= short);
        assert(result.take(at) =~= items.take(at));
        lemma_filters_commute(tail, stays, raw_calling());
        let kept = calls.filter(stays);
        assert(short.filter(raw_calling()) == kept);
        assert forall|id: Seq<char>| selected.contains(id) implies raw_selected(short).contains(
            id,
        ) by {
            let k = choose|k: int|
                0 <= k < calls.len() && raw_call_id((#[trigger] calls[k]).0) == Some(id) && (
                is_recent(k, calls.len()) || raw_first_mutation_id(calls) == Some(id));
            tail.lemma_filter_pred(raw_calling(), k);
            lemma_filter_place(calls, stays, k);
            let place = calls.take(k).filter(stays).len() as int;
            assert(raw_call_id(kept[place].0) == Some(id));
            if !is_recent(k, calls.len()) {
                lemma_first_stays_first(calls, stays, raw_mutating());
            }
        }
        let again = raw_stays(raw_selected(short));
        assert forall|i: int| 0 <= i < short.len() implies again(#[trigger] short[i]) by {
            tail.lemma_filter_pred(stays, i);
        }
        lemma_filter_all(short, again);
        assert(raw_compacted(result) =~= result);
    }
}

} // verus!
