//! One buffered executor turn: consuming it to completion, inspecting it, and
//! replaying it to the client verbatim.

use crate::blocks::{
    as_reasoning, as_text, block_reasoning, block_texts, join_lines, output_blocks,
    response_blocks,
};
use crate::error::{ClientErrorView, LibsyError, LlmClientError};
use crate::json::{json_list, json_of, text_member_is, value_as_array, value_get, Json};
use crate::protocol::{
    optional_json, AggLlmResponse, ContentBlock, FormatId, LlmResponse, LlmResponseChunk,
    LlmResponseStreamEvent, Metadata, Response, ResponseOutput, StopReason,
};
use crate::text::joined;
use serde_json::Value;
use vstd::prelude::*;

verus! {

/// One fully generated executor turn, held until it is known what becomes of it.
#[derive(Debug)]
pub struct GatedTurn {
    /// The provider's events of a streamed turn, as they came.
    pub events: Option<Vec<LlmResponseStreamEvent>>,
    /// The turn as one response.
    pub agg: AggLlmResponse,
    pub metadata: Option<Metadata>,
}

impl GatedTurn {
    /// The turn that a complete response is.
    pub fn complete(agg: AggLlmResponse, metadata: Option<Metadata>) -> (turn: GatedTurn)
        ensures
            turn == (GatedTurn { events: None, agg, metadata }),
    {
        GatedTurn { events: None, agg, metadata }
    }

    /// The response that the turn is released as.
    pub open spec fn response(self) -> Response {
        Response {
            llm_response: match self.events {
                Some(events) => LlmResponse::Stream(events),
                None => LlmResponse::Agg(self.agg),
            },
            metadata: self.metadata,
        }
    }

    /// Releases the turn to the client: a streamed turn replays its events as
    /// they came, any other is the response that it was.
    pub fn into_response(self) -> (response: Response)
        ensures
            response == self.response(),
    {
        let llm_response = match self.events {
            Some(events) => LlmResponse::Stream(events),
            None => LlmResponse::Agg(self.agg),
        };
        Response { llm_response, metadata: self.metadata }
    }
}

/// `http::StatusCode::BAD_GATEWAY`, as a number: 502.
#[verifier::external_body]
fn bad_gateway() -> (status: u16)
    ensures
        status == 502,
{
    http::StatusCode::BAD_GATEWAY.as_u16()
}

/// The failure that a chunk reports.
pub open spec fn chunk_failure(chunk: LlmResponseChunk) -> Option<ClientErrorView> {
    match chunk {
        LlmResponseChunk::DecodeError { message } => Some(
            ClientErrorView::ResponseTranslation(message@),
        ),
        LlmResponseChunk::StreamError { message } => Some(
            ClientErrorView::UpstreamHttp { status: 502, body: message@ },
        ),
        _ => None,
    }
}

/// The first failure that the chunks report.
pub open spec fn first_failure(chunks: Seq<LlmResponseChunk>) -> Option<ClientErrorView>
    decreases chunks.len(),
{
    if chunks.len() == 0 {
        None
    } else {
        match first_failure(chunks.drop_last()) {
            Some(failure) => Some(failure),
            None => chunk_failure(chunks.last()),
        }
    }
}

/// What the stream yields: an event, or a failure in place of one.
pub type StreamItem = Result<LlmResponseStreamEvent, LlmClientError>;

/// The failure that an item of the stream is or reports.
pub open spec fn item_failure(item: StreamItem) -> Option<ClientErrorView> {
    match item {
        Ok(event) => first_failure(event.normalized@),
        Err(source) => Some(source@),
    }
}

fn chunk_error(chunk: &LlmResponseChunk) -> (error: Option<LlmClientError>)
    ensures
        match error {
            Some(inner) => chunk_failure(*chunk) == Some(inner@),
            None => chunk_failure(*chunk) is None,
        },
{
    match chunk {
        LlmResponseChunk::DecodeError { message } => Some(
            LlmClientError::ResponseTranslation(message.clone()),
        ),
        LlmResponseChunk::StreamError { message } => Some(
            LlmClientError::UpstreamHttp { status: bad_gateway(), body: message.clone() },
        ),
        _ => None,
    }
}

/// Whether the error says that the call of `target` failed in this way.
pub open spec fn is_failed_call(error: LibsyError, target: Seq<char>, failure: ClientErrorView) -> bool {
    error matches LibsyError::ClientCall { target: called, source } && called@ == target && source@
        == failure
}

/// The events of a streamed turn, as far as they have come.
#[derive(Debug)]
pub struct TurnBuffer {
    events: Vec<LlmResponseStreamEvent>,
}

impl TurnBuffer {
    /// The events so far.
    pub closed spec fn events(self) -> Seq<LlmResponseStreamEvent> {
        self.events@
    }

    /// No events yet.
    pub fn new() -> (buffer: TurnBuffer)
        ensures
            buffer.events() == Seq::<LlmResponseStreamEvent>::empty(),
    {
        TurnBuffer { events: Vec::new() }
    }

    /// Takes the next item of the stream. A failure, be it in place of an
    /// event or reported by one of its chunks, fails the whole turn: the
    /// client has seen nothing of it.
    pub fn push(&mut self, executor: &str, item: StreamItem) -> (result: Result<(), LibsyError>)
        ensures
            match item_failure(item) {
                Some(failure) => (result matches Err(error) && is_failed_call(
                    error,
                    executor@,
                    failure,
                )) && final(self).events() == old(self).events(),
                None => result is Ok && item is Ok && final(self).events()
                    == old(self).events().push(item->Ok_0),
            },
    {
        match item {
            Ok(event) => {
                let ghost chunks = event.normalized@;
                let mut i: usize = 0;
                while i < event.normalized.len()
                    invariant
                        i <= event.normalized@.len(),
                        chunks == event.normalized@,
                        first_failure(chunks.take(i as int)) is None,
                        item == StreamItem::Ok(event),
                        self.events@ == old(self).events@,
                    decreases event.normalized@.len() - i,
                {
                    assert(chunks.take(i + 1).drop_last() =~= chunks.take(i as int));
                    if let Some(source) = chunk_error(&event.normalized[i]) {
                        proof {
                            lemma_first_failure(chunks, i + 1);
                        }
                        return Err(LibsyError::client_call(executor.to_string(), source));
                    }
                    i += 1;
                }
                assert(chunks.take(i as int) =~= chunks);
                self.events.push(event);
                Ok(())
            },
            Err(source) => Err(LibsyError::client_call(executor.to_string(), source)),
        }
    }

    /// The turn that the events make, where `agg` is all their chunks put
    /// together. The last complete OpenAI Responses body among the events
    /// becomes the response's preserved body.
    pub fn finish(self, agg: AggLlmResponse, metadata: Option<Metadata>) -> (turn: GatedTurn)
        ensures
            turn.events matches Some(events) && events@ == self.events(),
            turn.metadata == metadata,
            turn.agg.outputs == agg.outputs,
            turn.agg.detail == agg.detail,
            turn.agg.preservation.responses.others == agg.preservation.responses.others,
            optional_json(turn.agg.preservation.responses.responses) == match last_body(
                self.events(),
            ) {
                Some(body) => Some(body),
                None => optional_json(agg.preservation.responses.responses),
            },
    {
        let mut agg = agg;
        let ghost events = self.events@;
        let mut i: usize = self.events.len();
        let mut found: Option<Value> = None;
        assert(events.take(i as int) =~= events);
        while i > 0 && found.is_none()
            invariant
                i <= events.len(),
                events == self.events@,
                match found {
                    Some(body) => last_body(events) == Some(json_of(body)),
                    None => last_body(events) == last_body(events.take(i as int)),
                },
            decreases i,
        {
            assert(events.take(i as int).drop_last() =~= events.take(i - 1));
            i -= 1;
            match completed_body(&self.events[i]) {
                Some(body) => {
                    found = Some(body.clone());
                },
                None => {},
            }
        }
        if let Some(body) = found {
            agg.preservation.responses.responses = Some(body);
        }
        GatedTurn { events: Some(self.events), agg, metadata }
    }
}

proof fn lemma_first_failure(chunks: Seq<LlmResponseChunk>, n: int)
    requires
        0 <= n <= chunks.len(),
        first_failure(chunks.take(n)) is Some,
    ensures
        first_failure(chunks) == first_failure(chunks.take(n)),
    decreases chunks.len(),
{
    if n < chunks.len() {
        assert(chunks.drop_last().take(n) =~= chunks.take(n));
        lemma_first_failure(chunks.drop_last(), n);
    } else {
        assert(chunks.take(n) =~= chunks);
    }
}

/// The first failure that the items of a stream are or report.
pub open spec fn stream_failure(items: Seq<StreamItem>) -> Option<ClientErrorView>
    decreases items.len(),
{
    if items.len() == 0 {
        None
    } else {
        match stream_failure(items.drop_last()) {
            Some(failure) => Some(failure),
            None => item_failure(items.last()),
        }
    }
}

proof fn lemma_stream_failure(items: Seq<StreamItem>, n: int)
    requires
        0 <= n <= items.len(),
        stream_failure(items.take(n)) is Some,
    ensures
        stream_failure(items) == stream_failure(items.take(n)),
    decreases items.len(),
{
    if n < items.len() {
        assert(items.drop_last().take(n) =~= items.take(n));
        lemma_stream_failure(items.drop_last(), n);
    } else {
        assert(items.take(n) =~= items);
    }
}

/// The events of a stream that did not fail.
pub open spec fn stream_events(items: Seq<StreamItem>) -> Seq<LlmResponseStreamEvent> {
    Seq::new(items.len(), |i: int| items[i]->Ok_0)
}

/// Consumes the items of a stream to completion. The first failure fails the
/// whole turn; without one every event is held, in order.
pub fn buffer_turn(executor: &str, items: Vec<StreamItem>) -> (result: Result<TurnBuffer, LibsyError>)
    ensures
        match stream_failure(items@) {
            Some(failure) => result matches Err(error) && is_failed_call(error, executor@, failure),
            None => result matches Ok(buffer) && buffer.events() == stream_events(items@),
        },
{
    let mut buffer = TurnBuffer::new();
    assert(buffer.events() =~= stream_events(items@.take(0)));
    let ghost all = items@;
    for item in it: items
        invariant
            it.seq() == all,
            stream_failure(all.take(it.index())) is None,
            buffer.events() == stream_events(all.take(it.index())),
    {
        proof {
            assert(all.take(it.index() + 1).drop_last() =~= all.take(it.index()));
        }
        match buffer.push(executor, item) {
            Ok(()) => {
                assert(stream_events(all.take(it.index() + 1)) =~= stream_events(
                    all.take(it.index()),
                ).push(item->Ok_0));
            },
            Err(error) => {
                proof {
                    lemma_stream_failure(all, it.index() + 1);
                }
                return Err(error);
            },
        }
    }
    assert(all.take(all.len() as int) =~= all);
    Ok(buffer)
}

/// The complete response that an event of the OpenAI Responses format carries.
pub open spec fn event_body(event: LlmResponseStreamEvent) -> Option<Json> {
    match event.preservation {
        Some(preserved) => if preserved.source is OpenAiResponses {
            match json_of(preserved.raw).member("response"@) {
                Some(response) => if response.member("output"@) is Some {
                    Some(response)
                } else {
                    None
                },
                None => None,
            }
        } else {
            None
        },
        None => None,
    }
}

/// The last complete response that the events carry.
pub open spec fn last_body(events: Seq<LlmResponseStreamEvent>) -> Option<Json>
    decreases events.len(),
{
    if events.len() == 0 {
        None
    } else {
        match event_body(events.last()) {
            Some(body) => Some(body),
            None => last_body(events.drop_last()),
        }
    }
}

fn completed_body(event: &LlmResponseStreamEvent) -> (body: Option<&Value>)
    ensures
        match body {
            Some(inner) => event_body(*event) == Some(json_of(*inner)),
            None => event_body(*event) is None,
        },
{
    match &event.preservation {
        Some(preserved) => match &preserved.source {
            FormatId::OpenAiResponses => match value_get(&preserved.raw, "response") {
                Some(response) => if value_get(response, "output").is_some() {
                    Some(response)
                } else {
                    None
                },
                None => None,
            },
            FormatId::Other(_) => None,
        },
        None => None,
    }
}

/// Whether the output stopped for a tool or calls one.
pub open spec fn output_uses_tools(output: ResponseOutput) -> bool {
    ||| output.stop_reason matches Some(reason) && reason is ToolUse
    ||| exists|i: int| 0 <= i < output.content@.len() && (#[trigger] output.content@[i]) is ToolCall
}

/// Whether the turn carries tool use on either signal: the stop reason, or
/// any tool call. Some servers label such turns as an ordinary stop.
pub open spec fn uses_tools(agg: AggLlmResponse) -> bool {
    exists|i: int| 0 <= i < agg.outputs@.len() && output_uses_tools(#[trigger] agg.outputs@[i])
}

fn output_has_tool_call(output: &ResponseOutput) -> (found: bool)
    ensures
        found == exists|i: int|
            0 <= i < output.content@.len() && (#[trigger] output.content@[i]) is ToolCall,
{
    let mut i: usize = 0;
    while i < output.content.len()
        invariant
            i <= output.content@.len(),
            forall|j: int| 0 <= j < i ==> !((#[trigger] output.content@[j]) is ToolCall),
        decreases output.content@.len() - i,
    {
        if let ContentBlock::ToolCall(_) = &output.content[i] {
            assert(output.content@[i as int] is ToolCall);
            return true;
        }
        i += 1;
    }
    false
}

/// Whether any output calls a tool.
pub open spec fn calls_tools(agg: AggLlmResponse) -> bool {
    exists|i: int, j: int|
        0 <= i < agg.outputs@.len() && 0 <= j < agg.outputs@[i].content@.len() && (
        #[trigger] agg.outputs@[i].content@[j]) is ToolCall
}

/// Whether any output calls a tool.
pub fn has_tool_call(agg: &AggLlmResponse) -> (found: bool)
    ensures
        found == calls_tools(*agg),
{
    let mut i: usize = 0;
    while i < agg.outputs.len()
        invariant
            i <= agg.outputs@.len(),
            forall|k: int, j: int|
                0 <= k < i && 0 <= j < agg.outputs@[k].content@.len() ==> !((
                #[trigger] agg.outputs@[k].content@[j]) is ToolCall),
        decreases agg.outputs@.len() - i,
    {
        if output_has_tool_call(&agg.outputs[i]) {
            return true;
        }
        i += 1;
    }
    false
}

/// Whether the turn carries tool use on either signal: the stop reason, or
/// any tool call.
pub fn has_tool_use(agg: &AggLlmResponse) -> (found: bool)
    ensures
        found == uses_tools(*agg),
{
    let mut i: usize = 0;
    while i < agg.outputs.len()
        invariant
            i <= agg.outputs@.len(),
            forall|j: int| 0 <= j < i ==> !output_uses_tools(#[trigger] agg.outputs@[j]),
        decreases agg.outputs@.len() - i,
    {
        let output = &agg.outputs[i];
        let stopped = match &output.stop_reason {
            Some(StopReason::ToolUse) => true,
            _ => false,
        };
        if stopped || output_has_tool_call(output) {
            assert(output_uses_tools(agg.outputs@[i as int]));
            return true;
        }
        i += 1;
    }
    false
}

/// Whether the item is an assistant message marked as final.
pub open spec fn is_final_item(item: Json) -> bool {
    &&& item.text_member("type"@) == Some("message"@)
    &&& item.text_member("phase"@) == Some("final_answer"@)
}

/// Whether one of the items is an assistant message marked as final.
pub open spec fn has_final_item(items: Seq<Json>) -> bool {
    exists|i: int| 0 <= i < items.len() && is_final_item(#[trigger] items[i])
}

/// Whether an OpenAI Responses body marks one of its messages as final.
pub open spec fn is_final_body(body: Json) -> bool {
    match body.member("output"@) {
        Some(output) => match output {
            Json::List(items) => has_final_item(items),
            _ => false,
        },
        None => false,
    }
}

/// Whether a preserved OpenAI Responses body marks an assistant message as
/// final.
pub fn is_final_answer(agg: &AggLlmResponse) -> (found: bool)
    ensures
        found == (optional_json(agg.preservation.responses.responses) matches Some(body)
            && is_final_body(body)),
{
    let items = match &agg.preservation.responses.responses {
        Some(body) => match value_get(body, "output") {
            Some(output) => value_as_array(output),
            None => None,
        },
        None => None,
    };
    match items {
        Some(items) => {
            let ghost views = json_list(items@);
            let mut i: usize = 0;
            while i < items.len()
                invariant
                    i <= items@.len(),
                    views == json_list(items@),
                    optional_json(agg.preservation.responses.responses) is Some,
                    optional_json(agg.preservation.responses.responses)->0.member("output"@)
                        == Some(Json::List(views)),
                    forall|j: int| 0 <= j < i ==> !is_final_item(#[trigger] views[j]),
                decreases items@.len() - i,
            {
                let item = &items[i];
                if text_member_is(item, "type", "message") && text_member_is(item, "phase", "final_answer") {
                    assert(is_final_item(views[i as int]));
                    assert(has_final_item(views));
                    return true;
                }
                i += 1;
            }
            false
        },
        None => false,
    }
}

/// The texts joined, where that is not empty.
pub open spec fn joined_text(texts: Seq<Seq<char>>) -> Option<Seq<char>> {
    if joined(texts).len() == 0 {
        None
    } else {
        Some(joined(texts))
    }
}

/// The turn's visible text: all text blocks joined, a line each.
pub open spec fn visible(agg: AggLlmResponse) -> Option<Seq<char>> {
    joined_text(response_blocks(agg).filter_map(as_text()))
}

/// The turn's internal reasoning: all reasoning joined, a line each.
pub open spec fn reasoned(agg: AggLlmResponse) -> Option<Seq<char>> {
    joined_text(response_blocks(agg).filter_map(as_reasoning()))
}

fn non_empty(text: String) -> (result: Option<String>)
    ensures
        match result {
            Some(inner) => text@.len() > 0 && inner@ == text@,
            None => text@.len() == 0,
        },
{
    if text.as_str().is_empty() {
        None
    } else {
        Some(text)
    }
}

/// The turn's visible text: all text blocks joined, a line each; empty means
/// none.
pub fn visible_text(agg: &AggLlmResponse) -> (text: Option<String>)
    ensures
        match text {
            Some(inner) => visible(*agg) == Some(inner@),
            None => visible(*agg) is None,
        },
{
    let blocks = output_blocks(agg);
    let texts = block_texts(&blocks);
    non_empty(join_lines(&texts))
}

/// The turn's internal reasoning, joined in the same way.
pub fn reasoning_text(agg: &AggLlmResponse) -> (text: Option<String>)
    ensures
        match text {
            Some(inner) => reasoned(*agg) == Some(inner@),
            None => reasoned(*agg) is None,
        },
{
    let blocks = output_blocks(agg);
    let texts = block_reasoning(&blocks);
    non_empty(join_lines(&texts))
}

} // verus!
