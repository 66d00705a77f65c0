//! What a turn is taken for, told from its chunks, outputs and blocks.

use crate::blocks::{as_reasoning, as_text, output_contents, response_blocks};
use crate::compaction_laws::lemma_filter_same;
use crate::error::{ClientErrorView, LibsyError};
use crate::json::{json_of, Json};
use crate::laws::law_tool_call_is_tool_use;
use crate::pattern::regex_matches;
use crate::plan_execute_finalize::declares_completion;
use crate::protocol::{
    blocks_view, AggLlmResponse, BlockView, FormatId, LlmResponse, LlmResponseChunk,
    LlmResponseStreamEvent, StopReason,
};
use crate::text::joined;
use crate::turn::{
    calls_tools, chunk_failure, event_body, first_failure, is_failed_call, is_final_body,
    is_final_item, item_failure, last_body, output_uses_tools, reasoned, stream_events,
    stream_failure, uses_tools, visible, GatedTurn, StreamItem,
};
use vstd::prelude::*;

verus! {

proof fn lemma_no_failure(chunks: Seq<LlmResponseChunk>)
    ensures
        first_failure(chunks) is None <==> (forall|j: int|
            0 <= j < chunks.len() ==> !(#[trigger] chunks[j] is DecodeError) && !(
            chunks[j] is StreamError)),
    decreases chunks.len(),
{
    if chunks.len() > 0 {
        let rest = chunks.drop_last();
        lemma_no_failure(rest);
        let n = chunks.len() - 1;
        if first_failure(chunks) is None {
            assert forall|j: int| 0 <= j < chunks.len() implies !(#[trigger] chunks[j] is DecodeError)
                && !(chunks[j] is StreamError) by {
                if j < n {
                    assert(rest[j] == chunks[j]);
                }
            }
        }
        if forall|j: int|
            0 <= j < chunks.len() ==> !(#[trigger] chunks[j] is DecodeError) && !(
            chunks[j] is StreamError) {
            assert forall|j: int| 0 <= j < rest.len() implies !(#[trigger] rest[j] is DecodeError)
                && !(rest[j] is StreamError) by {
                assert(rest[j] == chunks[j]);
            }
            assert(!(chunks[n] is DecodeError));
        }
    }
}

proof fn lemma_failure_at(chunks: Seq<LlmResponseChunk>, at: int)
    requires
        0 <= at < chunks.len(),
        chunks[at] is DecodeError || chunks[at] is StreamError,
        forall|j: int|
            0 <= j < at ==> !(#[trigger] chunks[j] is DecodeError) && !(chunks[j] is StreamError),
    ensures
        first_failure(chunks) == chunk_failure(chunks[at]),
    decreases chunks.len(),
{
    let rest = chunks.drop_last();
    if at < chunks.len() - 1 {
        assert forall|j: int| 0 <= j < at implies !(#[trigger] rest[j] is DecodeError) && !(
        rest[j] is StreamError) by {
            assert(rest[j] == chunks[j]);
        }
        lemma_failure_at(rest, at);
    } else {
        assert forall|j: int| 0 <= j < rest.len() implies !(#[trigger] rest[j] is DecodeError)
            && !(rest[j] is StreamError) by {
            assert(rest[j] == chunks[j]);
        }
        lemma_no_failure(rest);
    }
}

/// Whether the item is an event, none of whose chunks reports a failure.
pub open spec fn sound_item(item: StreamItem) -> bool {
    item is Ok && forall|j: int|
        0 <= j < item->Ok_0.normalized@.len() ==> !(
        #[trigger] item->Ok_0.normalized@[j] is DecodeError) && !(
        item->Ok_0.normalized@[j] is StreamError)
}

proof fn lemma_item_failure(item: StreamItem)
    ensures
        item_failure(item) is None <==> sound_item(item),
{
    if item is Ok {
        lemma_no_failure(item->Ok_0.normalized@);
    }
}

/// A stream fails where an item is an error or a chunk is a decode error or a
/// stream error, and nowhere else. A stream that does not fail holds each of
/// its events, in order.
pub proof fn law_stream_fails_on_failures_only(items: Seq<StreamItem>)
    ensures
        stream_failure(items) is None <==> (forall|i: int|
            0 <= i < items.len() ==> (#[trigger] items[i] is Ok && forall|j: int|
                0 <= j < items[i]->Ok_0.normalized@.len() ==> !(
                #[trigger] items[i]->Ok_0.normalized@[j] is DecodeError) && !(
                items[i]->Ok_0.normalized@[j] is StreamError))),
        stream_failure(items) is None ==> stream_events(items).len() == items.len() && (forall|
            i: int,
        |
            0 <= i < items.len() ==> StreamItem::Ok(#[trigger] stream_events(items)[i])
                == items[i]),
    decreases items.len(),
{
    if items.len() > 0 {
        let rest = items.drop_last();
        let n = items.len() - 1;
        law_stream_fails_on_failures_only(rest);
        lemma_item_failure(items[n]);
        if stream_failure(items) is None {
            assert forall|i: int| 0 <= i < items.len() implies sound_item(#[trigger] items[i]) by {
                if i < n {
                    assert(rest[i] == items[i]);
                }
            }
            assert forall|i: int| 0 <= i < items.len() implies (#[trigger] items[i] is Ok
                && forall|j: int|
                0 <= j < items[i]->Ok_0.normalized@.len() ==> !(
                #[trigger] items[i]->Ok_0.normalized@[j] is DecodeError) && !(
                items[i]->Ok_0.normalized@[j] is StreamError)) by {
                assert(sound_item(items[i]));
            }
        }
        if forall|i: int|
            0 <= i < items.len() ==> (#[trigger] items[i] is Ok && forall|j: int|
                0 <= j < items[i]->Ok_0.normalized@.len() ==> !(
                #[trigger] items[i]->Ok_0.normalized@[j] is DecodeError) && !(
                items[i]->Ok_0.normalized@[j] is StreamError)) {
            assert(items[n] is Ok);
            assert(sound_item(items[n]));
            assert forall|i: int| 0 <= i < rest.len() implies (#[trigger] rest[i] is Ok
                && forall|j: int|
                0 <= j < rest[i]->Ok_0.normalized@.len() ==> !(
                #[trigger] rest[i]->Ok_0.normalized@[j] is DecodeError) && !(
                rest[i]->Ok_0.normalized@[j] is StreamError)) by {
                assert(rest[i] == items[i]);
            }
        }
    }
}

/// The failure of a stream is its first: the error that stands in place of an
/// event, or what the first failing chunk of an event reports. A decode error
/// is a failed translation; a stream error is a bad gateway.
pub proof fn law_first_failure_counts(items: Seq<StreamItem>, at: int, chunk: int)
    requires
        0 <= at < items.len(),
        forall|i: int| 0 <= i < at ==> sound_item(#[trigger] items[i]),
        items[at] is Ok ==> ({
            let chunks = items[at]->Ok_0.normalized@;
            &&& 0 <= chunk < chunks.len()
            &&& chunks[chunk] is DecodeError || chunks[chunk] is StreamError
            &&& forall|j: int|
                0 <= j < chunk ==> !(#[trigger] chunks[j] is DecodeError) && !(
                chunks[j] is StreamError)
        }),
    ensures
        match items[at] {
            Err(source) => stream_failure(items) == Some(source@),
            Ok(event) => match event.normalized@[chunk] {
                LlmResponseChunk::DecodeError { message } => stream_failure(items) == Some(
                    ClientErrorView::ResponseTranslation(message@),
                ),
                LlmResponseChunk::StreamError { message } => stream_failure(items) == Some(
                    ClientErrorView::UpstreamHttp { status: 502, body: message@ },
                ),
                _ => false,
            },
        },
    decreases items.len(),
{
    let rest = items.drop_last();
    if at < items.len() - 1 {
        assert(rest[at] == items[at]);
        assert forall|i: int| 0 <= i < at implies sound_item(#[trigger] rest[i]) by {
            assert(rest[i] == items[i]);
        }
        law_first_failure_counts(rest, at, chunk);
    } else {
        lemma_sound_stream(rest);
        if items[at] is Ok {
            lemma_failure_at(items[at]->Ok_0.normalized@, chunk);
        }
    }
}

proof fn lemma_sound_stream(items: Seq<StreamItem>)
    requires
        forall|i: int| 0 <= i < items.len() ==> sound_item(#[trigger] items[i]),
    ensures
        stream_failure(items) is None,
    decreases items.len(),
{
    if items.len() > 0 {
        let rest = items.drop_last();
        assert forall|i: int| 0 <= i < rest.len() implies sound_item(#[trigger] rest[i]) by {
            assert(rest[i] == items[i]);
        }
        lemma_sound_stream(rest);
        lemma_item_failure(items[items.len() - 1]);
    }
}

/// An item of a stream is taken unless it is an error or one of its chunks is a
/// decode error or a stream error.
pub proof fn law_item_is_taken(item: StreamItem)
    ensures
        item_failure(item) is None <==> (item is Ok && forall|j: int|
            0 <= j < item->Ok_0.normalized@.len() ==> !(
            #[trigger] item->Ok_0.normalized@[j] is DecodeError) && !(
            item->Ok_0.normalized@[j] is StreamError)),
        item matches Err(source) ==> item_failure(item) == Some(source@),
{
    lemma_item_failure(item);
}

/// A failed call tells the model that was called and how it failed.
pub proof fn law_failed_call(error: LibsyError, target: Seq<char>, failure: ClientErrorView)
    ensures
        is_failed_call(error, target, failure) <==> (error is ClientCall && error->target@ == target
            && error->source@ == failure),
{
}

/// A turn is released as the stream of its events where it has any, and as
/// the response that it is otherwise, with its metadata.
pub proof fn law_turn_is_released(turn: GatedTurn)
    ensures
        turn.events matches Some(events) ==> turn.response().llm_response == LlmResponse::Stream(
            events,
        ),
        turn.events is None ==> turn.response().llm_response == LlmResponse::Agg(turn.agg),
        turn.response().metadata == turn.metadata,
{
}

/// An event carries a complete response where it was preserved in the OpenAI
/// Responses format with a response that has an output.
pub proof fn law_complete_response(event: LlmResponseStreamEvent, response: Json)
    ensures
        event_body(event) == Some(response) <==> (event.preservation is Some
            && event.preservation->0.source == FormatId::OpenAiResponses && (json_of(
            event.preservation->0.raw,
        ) matches Json::Object(members) && members.contains_key("response"@)
            && members["response"@] == response) && (response matches Json::Object(inner)
            && inner.contains_key("output"@))),
{
}

/// No response counts where no event carries a complete one.
pub proof fn law_no_response_counts(events: Seq<LlmResponseStreamEvent>)
    ensures
        last_body(events) is None <==> (forall|i: int|
            0 <= i < events.len() ==> event_body(#[trigger] events[i]) is None),
    decreases events.len(),
{
    if events.len() > 0 {
        let rest = events.drop_last();
        let n = events.len() - 1;
        law_no_response_counts(rest);
        if last_body(events) is None {
            assert forall|i: int| 0 <= i < events.len() implies event_body(
                #[trigger] events[i],
            ) is None by {
                if i < n {
                    assert(rest[i] == events[i]);
                }
            }
        }
        if forall|i: int| 0 <= i < events.len() ==> event_body(#[trigger] events[i]) is None {
            assert(event_body(events[n]) is None);
            assert forall|i: int| 0 <= i < rest.len() implies event_body(
                #[trigger] rest[i],
            ) is None by {
                assert(rest[i] == events[i]);
            }
        }
    }
}

/// A body is final where an item of its output is a message in the phase of
/// the final answer.
pub proof fn law_final_body(body: Json)
    ensures
        is_final_body(body) <==> (body matches Json::Object(members) && members.contains_key(
            "output"@,
        ) && (members["output"@] matches Json::List(items) && exists|i: int|
            0 <= i < items.len() && (#[trigger] items[i] matches Json::Object(item)
                && item.contains_key("type"@) && item["type"@] == Json::Text("message"@)
                && item.contains_key("phase"@) && item["phase"@] == Json::Text(
                "final_answer"@,
            )))),
{
    if let Json::Object(members) = body {
        if members.contains_key("output"@) {
            if let Json::List(items) = members["output"@] {
                if is_final_body(body) {
                    let i = choose|i: int|
                        0 <= i < items.len() && is_final_item(#[trigger] items[i]);
                    assert(items[i] matches Json::Object(item) && item.contains_key("type"@)
                        && item["type"@] == Json::Text("message"@) && item.contains_key("phase"@)
                        && item["phase"@] == Json::Text("final_answer"@));
                }
                if exists|i: int|
                    0 <= i < items.len() && (#[trigger] items[i] matches Json::Object(item)
                        && item.contains_key("type"@) && item["type"@] == Json::Text("message"@)
                        && item.contains_key("phase"@) && item["phase"@] == Json::Text(
                        "final_answer"@,
                    )) {
                    let i = choose|i: int|
                        0 <= i < items.len() && (#[trigger] items[i] matches Json::Object(item)
                            && item.contains_key("type"@) && item["type"@] == Json::Text(
                            "message"@,
                        ) && item.contains_key("phase"@) && item["phase"@] == Json::Text(
                            "final_answer"@,
                        ));
                    assert(is_final_item(items[i]));
                }
            }
        }
    }
}

/// A turn calls tools where a block of an output is a tool call, and uses
/// tools where it does that or an output stopped for a tool.
pub proof fn law_tool_use(agg: AggLlmResponse)
    ensures
        calls_tools(agg) <==> (exists|i: int, j: int|
            0 <= i < agg.outputs@.len() && 0 <= j < agg.outputs@[i].content@.len()
                && #[trigger] agg.outputs@[i].content@[j] is ToolCall),
        uses_tools(agg) <==> (calls_tools(agg) || exists|i: int|
            0 <= i < agg.outputs@.len() && #[trigger] agg.outputs@[i].stop_reason == Some(
                StopReason::ToolUse,
            )),
{
    if uses_tools(agg) {
        let i = choose|i: int|
            0 <= i < agg.outputs@.len() && output_uses_tools(#[trigger] agg.outputs@[i]);
        let output = agg.outputs@[i];
        if !(output.stop_reason == Some(StopReason::ToolUse)) {
            let j = choose|j: int|
                0 <= j < output.content@.len() && (#[trigger] output.content@[j]) is ToolCall;
            assert(agg.outputs@[i].content@[j] is ToolCall);
        }
    }
    if calls_tools(agg) {
        law_tool_call_is_tool_use(agg);
    }
    if exists|i: int|
        0 <= i < agg.outputs@.len() && #[trigger] agg.outputs@[i].stop_reason == Some(
            StopReason::ToolUse,
        ) {
        let i = choose|i: int|
            0 <= i < agg.outputs@.len() && #[trigger] agg.outputs@[i].stop_reason == Some(
                StopReason::ToolUse,
            );
        assert(output_uses_tools(agg.outputs@[i]));
    }
}

/// The blocks of a response are those of its outputs, one output after the
/// other.
pub proof fn law_response_blocks(response: AggLlmResponse)
    ensures
        output_contents(response).len() == response.outputs@.len(),
        forall|i: int|
            0 <= i < response.outputs@.len() ==> #[trigger] output_contents(response)[i]
                == blocks_view(response.outputs@[i].content@),
        response_blocks(response) == output_contents(response).flatten(),
{
}

/// Visible text is read from text blocks alone, and reasoning from reasoning
/// alone.
pub proof fn law_readers(block: BlockView)
    ensures
        as_text()(block) == match block {
            BlockView::Text { text } => Some(text),
            _ => None,
        },
        as_reasoning()(block) == match block {
            BlockView::Reasoning { text, .. } => Some(text),
            _ => None,
        },
{
}

/// Two readers that read the same gather the same.
pub proof fn lemma_filter_map_same<A, B>(
    elements: Seq<A>,
    one: spec_fn(A) -> Option<B>,
    other: spec_fn(A) -> Option<B>,
)
    requires
        forall|element: A| #[trigger] one(element) == other(element),
    ensures
        elements.filter_map(one) == elements.filter_map(other),
    decreases elements.len(),
{
    if elements.len() > 0 {
        lemma_filter_map_same(elements.drop_last(), one, other);
        let n = elements.len() - 1;
        elements.lemma_filter_map_take_succ(one, n);
        elements.lemma_filter_map_take_succ(other, n);
        assert(elements.take(n) =~= elements.drop_last());
        assert(elements.take(n + 1) =~= elements);
        assert(one(elements[n]) == other(elements[n]));
    }
}

/// The visible text of a turn is its text blocks joined by line breaks, and
/// its reasoning its reasoning blocks; what is empty is none.
pub proof fn law_texts_of_a_turn(agg: AggLlmResponse)
    ensures
        ({
            let texts = response_blocks(agg).filter_map(
                |block: BlockView|
                    match block {
                        BlockView::Text { text } => Some(text),
                        _ => None,
                    },
            );
            visible(agg) == if joined(texts).len() > 0 {
                Some(joined(texts))
            } else {
                None
            }
        }),
        ({
            let texts = response_blocks(agg).filter_map(
                |block: BlockView|
                    match block {
                        BlockView::Reasoning { text, .. } => Some(text),
                        _ => None,
                    },
            );
            reasoned(agg) == if joined(texts).len() > 0 {
                Some(joined(texts))
            } else {
                None
            }
        }),
{
    let texts = |block: BlockView|
        match block {
            BlockView::Text { text } => Some(text),
            _ => None,
        };
    let thoughts = |block: BlockView|
        match block {
            BlockView::Reasoning { text, .. } => Some(text),
            _ => None,
        };
    lemma_filter_map_same(response_blocks(agg), as_text(), texts);
    lemma_filter_map_same(response_blocks(agg), as_reasoning(), thoughts);
}

/// A turn declares completion exactly where none of its outputs stopped for a
/// tool or calls one, and its text blocks, joined by line breaks, are not empty
/// and match the pattern. Nothing else in it plays a part.
pub proof fn law_completion_is_declared(pattern: regex::Regex, agg: AggLlmResponse)
    ensures
        declares_completion(pattern, agg) <==> {
            let text = joined(
                response_blocks(agg).filter_map(
                    |block: BlockView|
                        match block {
                            BlockView::Text { text } => Some(text),
                            _ => None,
                        },
                ),
            );
            &&& forall|i: int|
                0 <= i < agg.outputs@.len() ==> #[trigger] agg.outputs@[i].stop_reason != Some(
                    StopReason::ToolUse,
                )
            &&& forall|i: int, j: int|
                0 <= i < agg.outputs@.len() && 0 <= j < agg.outputs@[i].content@.len() ==> !(
                #[trigger] agg.outputs@[i].content@[j] is ToolCall)
            &&& text.len() > 0
            &&& regex_matches(pattern, text)
        },
{
    law_tool_use(agg);
    law_texts_of_a_turn(agg);
}

/// Tests whether a block is no reasoning.
pub open spec fn no_reasoning() -> spec_fn(BlockView) -> bool {
    |block: BlockView| !(block is Reasoning)
}

proof fn lemma_texts_without_reasoning(blocks: Seq<BlockView>)
    ensures
        blocks.filter(no_reasoning()).filter_map(as_text()) == blocks.filter_map(as_text()),
    decreases blocks.len(),
{
    if blocks.len() > 0 {
        let rest = blocks.drop_last();
        let last = blocks.last();
        let n = rest.len() as int;
        lemma_texts_without_reasoning(rest);
        assert(rest.push(last) =~= blocks);
        rest.lemma_filter_push(last, no_reasoning());
        blocks.lemma_filter_map_take_succ(as_text(), n);
        assert(blocks.take(n) =~= rest);
        assert(blocks.take(n + 1) =~= blocks);
        if no_reasoning()(last) {
            let kept = rest.filter(no_reasoning());
            let all = kept.push(last);
            all.lemma_filter_map_take_succ(as_text(), kept.len() as int);
            assert(all.take(kept.len() as int) =~= kept);
            assert(all.take(all.len() as int) =~= all);
        } else {
            assert(rest.filter_map(as_text()) + Seq::<Seq<char>>::empty() =~= rest.filter_map(
                as_text(),
            ));
        }
    } else {
        reveal(Seq::filter);
        assert(blocks.filter(no_reasoning()) =~= blocks);
    }
}

/// What a turn reasons plays no part: of two turns that differ only in that,
/// both declare completion or neither does.
pub proof fn law_reasoning_plays_no_part(
    pattern: regex::Regex,
    one: AggLlmResponse,
    other: AggLlmResponse,
)
    requires
        one.outputs@.len() == other.outputs@.len(),
        forall|i: int|
            0 <= i < one.outputs@.len() ==> #[trigger] one.outputs@[i].stop_reason
                == other.outputs@[i].stop_reason,
        response_blocks(one).filter(|block: BlockView| !(block is Reasoning)) == response_blocks(
            other,
        ).filter(|block: BlockView| !(block is Reasoning)),
        calls_tools(one) == calls_tools(other),
    ensures
        declares_completion(pattern, one) == declares_completion(pattern, other),
{
    let test = |block: BlockView| !(block is Reasoning);
    lemma_filter_same(response_blocks(one), test, no_reasoning());
    lemma_filter_same(response_blocks(other), test, no_reasoning());
    lemma_texts_without_reasoning(response_blocks(one));
    lemma_texts_without_reasoning(response_blocks(other));
    law_tool_use(one);
    law_tool_use(other);
    if exists|i: int|
        0 <= i < one.outputs@.len() && #[trigger] one.outputs@[i].stop_reason == Some(
            StopReason::ToolUse,
        ) {
        let i = choose|i: int|
            0 <= i < one.outputs@.len() && #[trigger] one.outputs@[i].stop_reason == Some(
                StopReason::ToolUse,
            );
        assert(other.outputs@[i].stop_reason == Some(StopReason::ToolUse));
    }
    if exists|i: int|
        0 <= i < other.outputs@.len() && #[trigger] other.outputs@[i].stop_reason == Some(
            StopReason::ToolUse,
        ) {
        let i = choose|i: int|
            0 <= i < other.outputs@.len() && #[trigger] other.outputs@[i].stop_reason == Some(
                StopReason::ToolUse,
            );
        assert(one.outputs@[i].stop_reason == Some(StopReason::ToolUse));
    }
}

} // verus!
