//! The blocks of a conversation, read across its messages.

use crate::protocol::{
    block_view, blocks_view, messages_view, AggLlmResponse, BlockView, CallView, ContentBlock,
    Message, MessageView, ToolCall,
};
use crate::text::joined;
use vstd::prelude::*;

verus! {

/// The content of each message, in order.
pub open spec fn message_contents(messages: Seq<MessageView>) -> Seq<Seq<BlockView>> {
    Seq::new(messages.len(), |i: int| messages[i].content)
}

/// The content of each output of a response, in order.
pub open spec fn output_contents(response: AggLlmResponse) -> Seq<Seq<BlockView>> {
    Seq::new(response.outputs@.len(), |i: int| blocks_view(response.outputs@[i].content@))
}

/// All blocks of the messages, in order.
pub open spec fn blocks_of(messages: Seq<MessageView>) -> Seq<BlockView> {
    message_contents(messages).flatten()
}

/// All blocks of a response, in order.
pub open spec fn response_blocks(response: AggLlmResponse) -> Seq<BlockView> {
    output_contents(response).flatten()
}

/// Reads a tool call.
pub open spec fn as_call() -> spec_fn(BlockView) -> Option<CallView> {
    |block: BlockView|
        match block {
            BlockView::ToolCall(call) => Some(call),
            _ => None,
        }
}

/// Reads visible text.
pub open spec fn as_text() -> spec_fn(BlockView) -> Option<Seq<char>> {
    |block: BlockView|
        match block {
            BlockView::Text { text } => Some(text),
            _ => None,
        }
}

/// Reads reasoning.
pub open spec fn as_reasoning() -> spec_fn(BlockView) -> Option<Seq<char>> {
    |block: BlockView|
        match block {
            BlockView::Reasoning { text, .. } => Some(text),
            _ => None,
        }
}

/// The tool calls among the blocks, in order.
pub open spec fn calls_of(blocks: Seq<BlockView>) -> Seq<CallView> {
    blocks.filter_map(as_call())
}

/// Whether the block is a tool call that edits or writes files.
pub open spec fn block_mutates(block: BlockView) -> bool {
    block matches BlockView::ToolCall(call) && call.mutating
}

/// Whether one of the message's tool calls edits or writes files.
pub open spec fn message_mutates(message: MessageView) -> bool {
    exists|i: int| 0 <= i < message.content.len() && block_mutates(#[trigger] message.content[i])
}

/// The views of a list of borrowed blocks.
pub open spec fn refs_view(blocks: Seq<&ContentBlock>) -> Seq<BlockView> {
    Seq::new(blocks.len(), |i: int| block_view(*blocks[i]))
}

/// The views of a list of borrowed calls.
pub open spec fn calls_view(calls: Seq<&ToolCall>) -> Seq<CallView> {
    Seq::new(calls.len(), |i: int| calls[i]@)
}

/// The texts of a list of borrowed strings.
pub open spec fn texts_view(texts: Seq<&str>) -> Seq<Seq<char>> {
    Seq::new(texts.len(), |i: int| texts[i]@)
}

fn append_blocks<'a>(blocks: &mut Vec<&'a ContentBlock>, content: &'a Vec<ContentBlock>)
    ensures
        refs_view(final(blocks)@) == refs_view(old(blocks)@) + blocks_view(content@),
{
    let ghost before = blocks@;
    let mut i: usize = 0;
    while i < content.len()
        invariant
            i <= content.len(),
            refs_view(blocks@) == refs_view(before) + blocks_view(content@).take(i as int),
        decreases content.len() - i,
    {
        let ghost current = blocks@;
        blocks.push(&content[i]);
        proof {
            assert(refs_view(blocks@) =~= refs_view(current).push(block_view(content@[i as int])));
            assert(blocks_view(content@).take(i + 1) =~= blocks_view(content@).take(i as int).push(
                block_view(content@[i as int]),
            ));
            assert(refs_view(blocks@) =~= refs_view(before) + blocks_view(content@).take(i + 1));
        }
        i += 1;
    }
    assert(blocks_view(content@).take(i as int) =~= blocks_view(content@));
}

proof fn lemma_flatten_take(parts: Seq<Seq<BlockView>>, i: int)
    requires
        0 <= i < parts.len(),
    ensures
        parts.take(i + 1).flatten() == parts.take(i).flatten() + parts[i],
{
    assert(parts.take(i + 1) =~= parts.take(i).push(parts[i]));
    parts.take(i).lemma_flatten_push(parts[i]);
}

/// All blocks of the messages, in order.
pub(crate) fn message_blocks(messages: &[Message]) -> (blocks: Vec<&ContentBlock>)
    ensures
        refs_view(blocks@) == blocks_of(messages_view(messages@)),
{
    let mut blocks: Vec<&ContentBlock> = Vec::new();
    let ghost parts = message_contents(messages_view(messages@));
    let mut i: usize = 0;
    assert(parts.take(0).flatten() =~= Seq::<BlockView>::empty());
    assert(refs_view(blocks@) =~= Seq::<BlockView>::empty());
    while i < messages.len()
        invariant
            i <= messages.len(),
            parts == message_contents(messages_view(messages@)),
            refs_view(blocks@) == parts.take(i as int).flatten(),
        decreases messages.len() - i,
    {
        append_blocks(&mut blocks, &messages[i].content);
        proof {
            lemma_flatten_take(parts, i as int);
        }
        i += 1;
    }
    assert(parts.take(i as int) =~= parts);
    blocks
}

/// All blocks of a response, in order.
pub(crate) fn output_blocks(response: &AggLlmResponse) -> (blocks: Vec<&ContentBlock>)
    ensures
        refs_view(blocks@) == response_blocks(*response),
{
    let mut blocks: Vec<&ContentBlock> = Vec::new();
    let ghost parts = output_contents(*response);
    let mut i: usize = 0;
    assert(parts.take(0).flatten() =~= Seq::<BlockView>::empty());
    assert(refs_view(blocks@) =~= Seq::<BlockView>::empty());
    while i < response.outputs.len()
        invariant
            i <= response.outputs.len(),
            parts == output_contents(*response),
            refs_view(blocks@) == parts.take(i as int).flatten(),
        decreases response.outputs.len() - i,
    {
        append_blocks(&mut blocks, &response.outputs[i].content);
        proof {
            lemma_flatten_take(parts, i as int);
        }
        i += 1;
    }
    assert(parts.take(i as int) =~= parts);
    blocks
}

/// The tool calls among the blocks, in order.
pub(crate) fn block_calls<'a>(blocks: &Vec<&'a ContentBlock>) -> (calls: Vec<&'a ToolCall>)
    ensures
        calls_view(calls@) == calls_of(refs_view(blocks@)),
{
    let mut calls: Vec<&ToolCall> = Vec::new();
    let ghost views = refs_view(blocks@);
    let mut i: usize = 0;
    assert(calls_view(calls@) =~= Seq::<CallView>::empty());
    while i < blocks.len()
        invariant
            i <= blocks.len(),
            views == refs_view(blocks@),
            calls_view(calls@) == calls_of(views.take(i as int)),
        decreases blocks.len() - i,
    {
        proof {
            views.lemma_filter_map_take_succ(as_call(), i as int);
        }
        if let ContentBlock::ToolCall(call) = blocks[i] {
            let ghost before = calls@;
            calls.push(call);
            assert(calls_view(calls@) =~= calls_view(before).push(call@));
        }
        i += 1;
    }
    assert(views.take(i as int) =~= views);
    calls
}

/// The visible texts among the blocks, in order.
pub(crate) fn block_texts<'a>(blocks: &Vec<&'a ContentBlock>) -> (texts: Vec<&'a str>)
    ensures
        texts_view(texts@) == refs_view(blocks@).filter_map(as_text()),
{
    let mut texts: Vec<&str> = Vec::new();
    let ghost views = refs_view(blocks@);
    let mut i: usize = 0;
    assert(texts_view(texts@) =~= Seq::<Seq<char>>::empty());
    while i < blocks.len()
        invariant
            i <= blocks.len(),
            views == refs_view(blocks@),
            texts_view(texts@) == views.take(i as int).filter_map(as_text()),
        decreases blocks.len() - i,
    {
        proof {
            views.lemma_filter_map_take_succ(as_text(), i as int);
        }
        if let ContentBlock::Text { text } = blocks[i] {
            let ghost before = texts@;
            texts.push(text.as_str());
            assert(texts_view(texts@) =~= texts_view(before).push(text@));
        }
        i += 1;
    }
    assert(views.take(i as int) =~= views);
    texts
}

/// The reasoning among the blocks, in order.
pub(crate) fn block_reasoning<'a>(blocks: &Vec<&'a ContentBlock>) -> (texts: Vec<&'a str>)
    ensures
        texts_view(texts@) == refs_view(blocks@).filter_map(as_reasoning()),
{
    let mut texts: Vec<&str> = Vec::new();
    let ghost views = refs_view(blocks@);
    let mut i: usize = 0;
    assert(texts_view(texts@) =~= Seq::<Seq<char>>::empty());
    while i < blocks.len()
        invariant
            i <= blocks.len(),
            views == refs_view(blocks@),
            texts_view(texts@) == views.take(i as int).filter_map(as_reasoning()),
        decreases blocks.len() - i,
    {
        proof {
            views.lemma_filter_map_take_succ(as_reasoning(), i as int);
        }
        if let ContentBlock::Reasoning { text, .. } = blocks[i] {
            let ghost before = texts@;
            texts.push(text.as_str());
            assert(texts_view(texts@) =~= texts_view(before).push(text@));
        }
        i += 1;
    }
    assert(views.take(i as int) =~= views);
    texts
}

/// The texts in order, with a line break between each two.
pub(crate) fn join_lines(texts: &Vec<&str>) -> (lines: String)
    ensures
        lines@ == joined(texts_view(texts@)),
{
    let mut lines = String::new();
    let ghost views = texts_view(texts@);
    let mut i: usize = 0;
    while i < texts.len()
        invariant
            i <= texts.len(),
            views == texts_view(texts@),
            lines@ == joined(views.take(i as int)),
        decreases texts.len() - i,
    {
        proof {
            assert(views.take(i + 1).drop_last() =~= views.take(i as int));
        }
        if i > 0 {
            lines.append("\n");
        }
        lines.append(texts[i]);
        proof {
            assert(lines@ =~= joined(views.take(i + 1)));
        }
        i += 1;
    }
    assert(views.take(i as int) =~= views);
    lines
}

/// Whether one of the message's tool calls edits or writes files.
pub fn message_has_mutation(message: &Message) -> (found: bool)
    ensures
        found == message_mutates(message@),
{
    let mut i: usize = 0;
    while i < message.content.len()
        invariant
            i <= message.content.len(),
            forall|j: int| 0 <= j < i ==> !block_mutates(#[trigger] message@.content[j]),
        decreases message.content.len() - i,
    {
        if let ContentBlock::ToolCall(call) = &message.content[i] {
            if call.mutating {
                assert(block_mutates(message@.content[i as int]));
                return true;
            }
        }
        i += 1;
    }
    false
}

} // verus!
