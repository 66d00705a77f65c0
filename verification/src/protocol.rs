//! The conversation model: requests, responses and the blocks they are made of.
//!
//! Each type that a router copies or compares has a view, in which text is a
//! sequence of characters and a JSON value is what it holds.

use crate::json::{json_of, value_eq, Json};
use serde_json::Value;
use vstd::prelude::*;

verus! {

/// Who speaks in a message or an instruction.
#[derive(Clone, Copy, Debug, PartialEq, Eq, Structural)]
pub enum Role {
    System,
    Developer,
    User,
    Assistant,
    Tool,
}

/// A call of a tool.
#[derive(Debug, PartialEq)]
pub struct ToolCall {
    pub id: String,
    pub name: String,
    pub arguments: Value,
    /// Whether the call edits or writes files, as the tool signals judge its
    /// name and arguments.
    pub mutating: bool,
}

/// What a tool call came back with.
#[derive(Debug, PartialEq)]
pub struct ToolResult {
    pub tool_call_id: String,
    pub content: Vec<ContentBlock>,
    pub is_error: Option<bool>,
}

/// One piece of a message.
#[derive(Debug, PartialEq)]
pub enum ContentBlock {
    Text { text: String },
    /// Internal reasoning, with what else the provider attached to it.
    Reasoning { text: String, detail: Value },
    ToolCall(ToolCall),
    ToolResult(ToolResult),
    /// Any other block, which the routers carry and do not read.
    Other(Value),
}

/// One message of a conversation.
#[derive(Debug, PartialEq)]
pub struct Message {
    pub role: Role,
    pub content: Vec<ContentBlock>,
}

/// One instruction that precedes the conversation.
#[derive(Debug, PartialEq)]
pub struct InstructionBlock {
    pub role: Role,
    pub content: Vec<ContentBlock>,
}

/// What a [`ToolCall`] holds.
#[verifier::ext_equal]
pub struct CallView {
    pub id: Seq<char>,
    pub name: Seq<char>,
    pub arguments: Json,
    pub mutating: bool,
}

/// What a [`ContentBlock`] holds.
#[verifier::ext_equal]
pub enum BlockView {
    Text { text: Seq<char> },
    Reasoning { text: Seq<char>, detail: Json },
    ToolCall(CallView),
    ToolResult { tool_call_id: Seq<char>, content: Seq<BlockView>, is_error: Option<bool> },
    Other(Json),
}

/// What a [`Message`] or an [`InstructionBlock`] holds.
#[verifier::ext_equal]
pub struct MessageView {
    pub role: Role,
    pub content: Seq<BlockView>,
}

impl View for ToolCall {
    type V = CallView;

    open spec fn view(&self) -> CallView {
        CallView {
            id: self.id@,
            name: self.name@,
            arguments: json_of(self.arguments),
            mutating: self.mutating,
        }
    }
}

/// The view of a block.
pub open spec fn block_view(block: ContentBlock) -> BlockView
    decreases block,
{
    match block {
        ContentBlock::Text { text } => BlockView::Text { text: text@ },
        ContentBlock::Reasoning { text, detail } => BlockView::Reasoning {
            text: text@,
            detail: json_of(detail),
        },
        ContentBlock::ToolCall(call) => BlockView::ToolCall(call@),
        ContentBlock::ToolResult(result) => BlockView::ToolResult {
            tool_call_id: result.tool_call_id@,
            content: blocks_view(result.content@),
            is_error: result.is_error,
        },
        ContentBlock::Other(value) => BlockView::Other(json_of(value)),
    }
}

/// The views of a list of blocks.
pub open spec fn blocks_view(blocks: Seq<ContentBlock>) -> Seq<BlockView>
    decreases blocks,
{
    Seq::new(
        blocks.len(),
        |i: int|
            if 0 <= i < blocks.len() {
                block_view(blocks[i])
            } else {
                arbitrary()
            },
    )
}

impl View for ContentBlock {
    type V = BlockView;

    open spec fn view(&self) -> BlockView {
        block_view(*self)
    }
}

impl View for Message {
    type V = MessageView;

    open spec fn view(&self) -> MessageView {
        MessageView { role: self.role, content: blocks_view(self.content@) }
    }
}

impl View for InstructionBlock {
    type V = MessageView;

    open spec fn view(&self) -> MessageView {
        MessageView { role: self.role, content: blocks_view(self.content@) }
    }
}

/// The views of a list of messages.
pub open spec fn messages_view(messages: Seq<Message>) -> Seq<MessageView> {
    Seq::new(messages.len(), |i: int| messages[i]@)
}

/// The views of a list of instructions.
pub open spec fn instructions_view(instructions: Seq<InstructionBlock>) -> Seq<MessageView> {
    Seq::new(instructions.len(), |i: int| instructions[i]@)
}

/// A message of one text block.
pub open spec fn text_message(role: Role, text: Seq<char>) -> MessageView {
    MessageView { role, content: seq![BlockView::Text { text }] }
}

fn copy_blocks(blocks: &Vec<ContentBlock>) -> (copy: Vec<ContentBlock>)
    ensures
        blocks_view(copy@) == blocks_view(blocks@),
    decreases blocks,
{
    let mut copy: Vec<ContentBlock> = Vec::new();
    let mut i: usize = 0;
    while i < blocks.len()
        invariant
            i <= blocks.len(),
            copy.len() == i,
            forall|j: int| 0 <= j < i ==> block_view(#[trigger] copy@[j]) == block_view(blocks@[j]),
        decreases blocks.len() - i,
    {
        assert(decreases_to!(blocks => blocks@[i as int]));
        let block = copy_block(&blocks[i]);
        copy.push(block);
        i += 1;
    }
    assert(blocks_view(copy@) =~= blocks_view(blocks@));
    copy
}

fn copy_block(block: &ContentBlock) -> (copy: ContentBlock)
    ensures
        block_view(copy) == block_view(*block),
    decreases block,
{
    match block {
        ContentBlock::Text { text } => ContentBlock::Text { text: text.clone() },
        ContentBlock::Reasoning { text, detail } => ContentBlock::Reasoning {
            text: text.clone(),
            detail: detail.clone(),
        },
        ContentBlock::ToolCall(call) => ContentBlock::ToolCall(call.clone()),
        ContentBlock::ToolResult(result) => ContentBlock::ToolResult(
            ToolResult {
                tool_call_id: result.tool_call_id.clone(),
                content: copy_blocks(&result.content),
                is_error: result.is_error,
            },
        ),
        ContentBlock::Other(value) => ContentBlock::Other(value.clone()),
    }
}

fn same_blocks(left: &Vec<ContentBlock>, right: &Vec<ContentBlock>) -> (same: bool)
    ensures
        same == (blocks_view(left@) == blocks_view(right@)),
    decreases left,
{
    if left.len() != right.len() {
        assert(blocks_view(left@).len() != blocks_view(right@).len());
        return false;
    }
    let mut i: usize = 0;
    while i < left.len()
        invariant
            i <= left.len(),
            left.len() == right.len(),
            forall|j: int| 0 <= j < i ==> block_view(#[trigger] left@[j]) == block_view(right@[j]),
        decreases left.len() - i,
    {
        assert(decreases_to!(left => left@[i as int]));
        if !same_block(&left[i], &right[i]) {
            assert(blocks_view(left@)[i as int] != blocks_view(right@)[i as int]);
            return false;
        }
        i += 1;
    }
    assert(blocks_view(left@) =~= blocks_view(right@));
    true
}

fn same_block(left: &ContentBlock, right: &ContentBlock) -> (same: bool)
    ensures
        same == (block_view(*left) == block_view(*right)),
    decreases left,
{
    match (left, right) {
        (ContentBlock::Text { text }, ContentBlock::Text { text: other }) => *text == *other,
        (
            ContentBlock::Reasoning { text, detail },
            ContentBlock::Reasoning { text: other, detail: other_detail },
        ) => *text == *other && value_eq(detail, other_detail),
        (ContentBlock::ToolCall(call), ContentBlock::ToolCall(other)) => {
            call.id == other.id && call.name == other.name && value_eq(
                &call.arguments,
                &other.arguments,
            ) && call.mutating == other.mutating
        },
        (ContentBlock::ToolResult(result), ContentBlock::ToolResult(other)) => {
            result.tool_call_id == other.tool_call_id && same_blocks(
                &result.content,
                &other.content,
            ) && result.is_error == other.is_error
        },
        (ContentBlock::Other(value), ContentBlock::Other(other)) => value_eq(value, other),
        _ => false,
    }
}

impl Clone for ToolCall {
    fn clone(&self) -> (copy: Self)
        ensures
            copy@ == self@,
    {
        ToolCall {
            id: self.id.clone(),
            name: self.name.clone(),
            arguments: self.arguments.clone(),
            mutating: self.mutating,
        }
    }
}

impl Clone for ContentBlock {
    fn clone(&self) -> (copy: Self)
        ensures
            copy@ == self@,
    {
        copy_block(self)
    }
}

impl Clone for ToolResult {
    fn clone(&self) -> (copy: Self)
        ensures
            ContentBlock::ToolResult(copy)@ == ContentBlock::ToolResult(*self)@,
    {
        ToolResult {
            tool_call_id: self.tool_call_id.clone(),
            content: copy_blocks(&self.content),
            is_error: self.is_error,
        }
    }
}

impl Clone for Message {
    fn clone(&self) -> (copy: Self)
        ensures
            copy@ == self@,
    {
        Message { role: self.role, content: copy_blocks(&self.content) }
    }
}

impl Clone for InstructionBlock {
    fn clone(&self) -> (copy: Self)
        ensures
            copy@ == self@,
    {
        InstructionBlock { role: self.role, content: copy_blocks(&self.content) }
    }
}

impl Message {
    /// A message of one text block.
    pub fn text(role: Role, text: &str) -> (message: Message)
        ensures
            message@ == text_message(role, text@),
    {
        let message = Message {
            role,
            content: vec![ContentBlock::Text { text: text.to_string() }],
        };
        assert(message@.content =~= text_message(role, text@).content);
        message
    }

    /// Whether two messages hold the same.
    pub fn same(&self, other: &Message) -> (same: bool)
        ensures
            same == (self@ == other@),
    {
        self.role == other.role && same_blocks(&self.content, &other.content)
    }
}

/// Copies a list of messages.
pub fn copy_messages(messages: &[Message]) -> (copy: Vec<Message>)
    ensures
        messages_view(copy@) == messages_view(messages@),
{
    let mut copy: Vec<Message> = Vec::new();
    let mut i: usize = 0;
    while i < messages.len()
        invariant
            i <= messages.len(),
            copy.len() == i,
            forall|j: int| 0 <= j < i ==> (#[trigger] copy@[j])@ == messages@[j]@,
        decreases messages.len() - i,
    {
        copy.push(messages[i].clone());
        i += 1;
    }
    assert(messages_view(copy@) =~= messages_view(messages@));
    copy
}

/// Which tools the model may call.
#[derive(Debug, PartialEq)]
pub enum ToolChoice {
    /// No tool at all.
    Forbidden,
    /// Any other choice, which the routers carry and do not read.
    Other(Value),
}

/// Bodies kept as they went over the wire, one for each wire format.
#[derive(Debug, PartialEq, Default)]
pub struct WireBodies {
    /// The body in the OpenAI Responses format.
    pub responses: Option<Value>,
    /// The bodies in other formats, each with the format's name.
    pub others: Vec<(String, Value)>,
}

/// What of a request is kept for exact replay.
#[derive(Debug, PartialEq, Default)]
pub struct RequestPreservation {
    pub requests: WireBodies,
}

/// A request to a model.
#[derive(Debug, PartialEq, Default)]
pub struct LlmRequest {
    pub model: Option<String>,
    pub instructions: Vec<InstructionBlock>,
    pub messages: Vec<Message>,
    pub stream: bool,
    pub tool_choice: Option<ToolChoice>,
    pub preservation: RequestPreservation,
    /// What the routers carry and do not read.
    pub detail: Value,
}

/// What is known of the session that a request or a response belongs to.
#[derive(Debug, PartialEq, Default)]
pub struct Metadata {
    pub session_id: Option<String>,
    /// Whether this is the last request of its session.
    pub session_final: Option<bool>,
    /// What the routers carry and do not read.
    pub detail: Value,
}

/// The key under which a router keeps what it knows of a session.
#[derive(Debug, PartialEq)]
pub struct RoutingIdentity {
    pub key: String,
}

/// A request as a router sees it.
#[derive(Debug, PartialEq, Default)]
pub struct Request {
    pub llm_request: LlmRequest,
    pub metadata: Option<Metadata>,
    /// The session's key, where the request can be told to belong to one.
    pub identity: Option<RoutingIdentity>,
    /// What the routers carry and do not read.
    pub detail: Value,
}

/// The name of a model.
#[derive(Debug, PartialEq)]
pub struct ModelId {
    pub name: String,
}

/// Why a model stopped.
#[derive(Debug, PartialEq)]
pub enum StopReason {
    ToolUse,
    Other(String),
}

/// One alternative of a response.
#[derive(Debug, PartialEq)]
pub struct ResponseOutput {
    pub role: Role,
    pub content: Vec<ContentBlock>,
    pub stop_reason: Option<StopReason>,
}

/// What of a response is kept for exact replay.
#[derive(Debug, PartialEq, Default)]
pub struct ResponsePreservation {
    pub responses: WireBodies,
}

/// A complete response.
#[derive(Debug, PartialEq, Default)]
pub struct AggLlmResponse {
    pub outputs: Vec<ResponseOutput>,
    pub preservation: ResponsePreservation,
    /// What the routers carry and do not read.
    pub detail: Value,
}

/// The wire format that a preserved event came in.
#[derive(Debug, PartialEq)]
pub enum FormatId {
    OpenAiResponses,
    Other(String),
}

/// One normalized piece of a streamed response.
#[derive(Debug, PartialEq)]
pub enum LlmResponseChunk {
    MessageStart { id: Option<String>, model: Option<String> },
    TextDelta { index: u64, text: String },
    MessageStop { reason: Option<StopReason> },
    /// The provider's event could not be decoded.
    DecodeError { message: String },
    /// The provider reported a failure within the stream.
    StreamError { message: String },
    /// Any other chunk, which the routers carry and do not read.
    Other(Value),
}

/// A provider event as it came over the wire.
#[derive(Debug, PartialEq)]
pub struct PreservedEvent {
    pub source: FormatId,
    pub raw: Value,
}

/// One event of a streamed response.
#[derive(Debug, PartialEq)]
pub struct LlmResponseStreamEvent {
    pub normalized: Vec<LlmResponseChunk>,
    pub preservation: Option<PreservedEvent>,
}

/// A response of a model.
#[derive(Debug, PartialEq)]
pub enum LlmResponse {
    /// A complete response.
    Agg(AggLlmResponse),
    /// A stream of these events.
    Stream(Vec<LlmResponseStreamEvent>),
    /// A stream made of a complete response.
    AggStream(AggLlmResponse),
}

/// A response as a router sees it.
#[derive(Debug, PartialEq)]
pub struct Response {
    pub llm_response: LlmResponse,
    pub metadata: Option<Metadata>,
}

/// What a router decided.
#[derive(Debug, PartialEq)]
pub enum RoutingOutcome {
    /// Send the request to the target, and to the fallbacks in turn where it fails.
    RouteTo { target: ModelId, fallbacks: Vec<ModelId>, request: Request },
    /// The model has answered the request already.
    Answered { model: ModelId, request: Request, response: Response },
}

/// What a [`ToolChoice`] holds.
pub enum ToolChoiceView {
    Forbidden,
    Other(Json),
}

/// What a [`WireBodies`] holds.
#[verifier::ext_equal]
pub struct BodiesView {
    pub responses: Option<Json>,
    pub others: Seq<(Seq<char>, Json)>,
}

/// What a [`Metadata`] holds.
pub struct MetadataView {
    pub session_id: Option<Seq<char>>,
    pub session_final: Option<bool>,
    pub detail: Json,
}

/// What a [`Request`] holds.
#[verifier::ext_equal]
pub struct RequestView {
    pub model: Option<Seq<char>>,
    pub instructions: Seq<MessageView>,
    pub messages: Seq<MessageView>,
    pub stream: bool,
    pub tool_choice: Option<ToolChoiceView>,
    pub requests: BodiesView,
    pub metadata: Option<MetadataView>,
    pub identity: Option<Seq<char>>,
    /// What is carried beside the request to the model.
    pub detail: Json,
    /// What is carried in the request to the model.
    pub llm_detail: Json,
}

/// The text of an optional string.
pub open spec fn optional_text(text: Option<String>) -> Option<Seq<char>> {
    match text {
        Some(inner) => Some(inner@),
        None => None,
    }
}

/// What an optional value holds.
pub open spec fn optional_json(value: Option<Value>) -> Option<Json> {
    match value {
        Some(inner) => Some(json_of(inner)),
        None => None,
    }
}

impl View for ToolChoice {
    type V = ToolChoiceView;

    open spec fn view(&self) -> ToolChoiceView {
        match self {
            ToolChoice::Forbidden => ToolChoiceView::Forbidden,
            ToolChoice::Other(value) => ToolChoiceView::Other(json_of(*value)),
        }
    }
}

/// What each of a list of named bodies holds.
pub open spec fn named_bodies(bodies: Seq<(String, Value)>) -> Seq<(Seq<char>, Json)> {
    Seq::new(bodies.len(), |i: int| (bodies[i].0@, json_of(bodies[i].1)))
}

impl View for WireBodies {
    type V = BodiesView;

    open spec fn view(&self) -> BodiesView {
        BodiesView {
            responses: optional_json(self.responses),
            others: named_bodies(self.others@),
        }
    }
}

impl View for Metadata {
    type V = MetadataView;

    open spec fn view(&self) -> MetadataView {
        MetadataView {
            session_id: optional_text(self.session_id),
            session_final: self.session_final,
            detail: json_of(self.detail),
        }
    }
}

impl View for RoutingIdentity {
    type V = Seq<char>;

    open spec fn view(&self) -> Seq<char> {
        self.key@
    }
}

impl View for ModelId {
    type V = Seq<char>;

    open spec fn view(&self) -> Seq<char> {
        self.name@
    }
}

impl View for Request {
    type V = RequestView;

    open spec fn view(&self) -> RequestView {
        RequestView {
            model: optional_text(self.llm_request.model),
            instructions: instructions_view(self.llm_request.instructions@),
            messages: messages_view(self.llm_request.messages@),
            stream: self.llm_request.stream,
            tool_choice: match self.llm_request.tool_choice {
                Some(choice) => Some(choice@),
                None => None,
            },
            requests: self.llm_request.preservation.requests@,
            metadata: match self.metadata {
                Some(metadata) => Some(metadata@),
                None => None,
            },
            identity: match self.identity {
                Some(identity) => Some(identity@),
                None => None,
            },
            detail: json_of(self.detail),
            llm_detail: json_of(self.llm_request.detail),
        }
    }
}

impl RequestView {
    /// Whether the request says that it is the last of its session.
    pub open spec fn is_final(self) -> bool {
        self.metadata matches Some(metadata) && metadata.session_final == Some(true)
    }

    /// The items of the conversation in the preserved OpenAI Responses body.
    pub open spec fn responses_input(self) -> Option<Seq<Json>> {
        match self.requests.responses {
            Some(body) => match body.member("input"@) {
                Some(input) => input.items(),
                None => None,
            },
            None => None,
        }
    }
}

impl RequestView {
    /// The request with these items in the preserved OpenAI Responses body.
    pub open spec fn with_responses_input(self, items: Seq<Json>) -> RequestView {
        RequestView {
            requests: BodiesView {
                responses: match self.requests.responses {
                    Some(body) => Some(body.with_member("input"@, Json::List(items))),
                    None => None,
                },
                others: self.requests.others,
            },
            ..self
        }
    }
}

/// No bodies at all.
pub open spec fn no_bodies() -> BodiesView {
    BodiesView { responses: None, others: Seq::empty() }
}

fn copy_text(text: &Option<String>) -> (copy: Option<String>)
    ensures
        optional_text(copy) == optional_text(*text),
{
    match text {
        Some(inner) => Some(inner.clone()),
        None => None,
    }
}

impl Clone for ToolChoice {
    fn clone(&self) -> (copy: Self)
        ensures
            copy@ == self@,
    {
        match self {
            ToolChoice::Forbidden => ToolChoice::Forbidden,
            ToolChoice::Other(value) => ToolChoice::Other(value.clone()),
        }
    }
}

impl Clone for WireBodies {
    fn clone(&self) -> (copy: Self)
        ensures
            copy@ == self@,
    {
        let responses = match &self.responses {
            Some(body) => Some(body.clone()),
            None => None,
        };
        let mut others: Vec<(String, Value)> = Vec::new();
        let mut i: usize = 0;
        while i < self.others.len()
            invariant
                i <= self.others.len(),
                others.len() == i,
                forall|j: int|
                    0 <= j < i ==> (#[trigger] others@[j]).0@ == self.others@[j].0@ && json_of(
                        others@[j].1,
                    ) == json_of(self.others@[j].1),
            decreases self.others.len() - i,
        {
            let (name, body) = &self.others[i];
            others.push((name.clone(), body.clone()));
            i += 1;
        }
        let copy = WireBodies { responses, others };
        assert(copy@.others =~= self@.others);
        copy
    }
}

impl Clone for Metadata {
    fn clone(&self) -> (copy: Self)
        ensures
            copy@ == self@,
    {
        Metadata {
            session_id: copy_text(&self.session_id),
            session_final: self.session_final,
            detail: self.detail.clone(),
        }
    }
}

impl Clone for RoutingIdentity {
    fn clone(&self) -> (copy: Self)
        ensures
            copy@ == self@,
    {
        RoutingIdentity { key: self.key.clone() }
    }
}

impl Clone for ModelId {
    fn clone(&self) -> (copy: Self)
        ensures
            copy@ == self@,
    {
        ModelId { name: self.name.clone() }
    }
}

impl Clone for LlmRequest {
    fn clone(&self) -> (copy: Self)
        ensures
            optional_text(copy.model) == optional_text(self.model),
            instructions_view(copy.instructions@) == instructions_view(self.instructions@),
            messages_view(copy.messages@) == messages_view(self.messages@),
            copy.stream == self.stream,
            copy.tool_choice is Some == self.tool_choice is Some,
            copy.tool_choice is Some ==> copy.tool_choice->0@ == self.tool_choice->0@,
            copy.preservation.requests@ == self.preservation.requests@,
            json_of(copy.detail) == json_of(self.detail),
    {
        let mut instructions: Vec<InstructionBlock> = Vec::new();
        let mut i: usize = 0;
        while i < self.instructions.len()
            invariant
                i <= self.instructions.len(),
                instructions.len() == i,
                forall|j: int|
                    0 <= j < i ==> (#[trigger] instructions@[j])@ == self.instructions@[j]@,
            decreases self.instructions.len() - i,
        {
            instructions.push(self.instructions[i].clone());
            i += 1;
        }
        assert(instructions_view(instructions@) =~= instructions_view(self.instructions@));
        LlmRequest {
            model: copy_text(&self.model),
            instructions,
            messages: copy_messages(self.messages.as_slice()),
            stream: self.stream,
            tool_choice: match &self.tool_choice {
                Some(choice) => Some(choice.clone()),
                None => None,
            },
            preservation: RequestPreservation { requests: self.preservation.requests.clone() },
            detail: self.detail.clone(),
        }
    }
}

impl Clone for Request {
    fn clone(&self) -> (copy: Self)
        ensures
            copy@ == self@,
    {
        Request {
            llm_request: self.llm_request.clone(),
            metadata: match &self.metadata {
                Some(metadata) => Some(metadata.clone()),
                None => None,
            },
            identity: match &self.identity {
                Some(identity) => Some(identity.clone()),
                None => None,
            },
            detail: self.detail.clone(),
        }
    }
}

impl Request {
    /// Whether the request says that it is the last of its session.
    pub fn is_final(&self) -> (last: bool)
        ensures
            last == self@.is_final(),
    {
        match &self.metadata {
            Some(metadata) => metadata.session_final == Some(true),
            None => false,
        }
    }
}

} // verus!
