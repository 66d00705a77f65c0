//! Plans with a capable model, executes with an efficient model, then gives
//! final control back.

use crate::blocks::{message_has_mutation, message_mutates};
use crate::error::{algorithm_error, LibsyError};
use crate::json::{
    json_list, json_of, map_insert, map_new, object_value, text_value, value_eq, Json,
};
use crate::pattern::{
    compile, error_text, is_match, is_size_error, may_refuse, pattern_matches, pattern_parses,
    regex_error_text, regex_matches,
};
use crate::plan_execute::{
    is_latched, latch_step, planning_request, ExecutionTracker, ToolSignals,
};
use crate::prompts::{
    lemma_finalizer_prompt, lemma_planning_prompt, lemma_terminal_pattern,
    DEFAULT_FINALIZER_PROMPT, DEFAULT_FINALIZER_TERMINAL_PATTERN, DEFAULT_PLANNING_PROMPT,
};
use crate::protocol::{
    copy_messages, messages_view, no_bodies, text_message, AggLlmResponse, Message, MessageView,
    ModelId, Request, RequestView, Role, RoutingOutcome,
};
use crate::replay::{
    drop_exact_replay, exact_responses_input, exact_responses_input_mut, prepend_system_prompt,
    prepend_system_prompt_preserving_responses, with_prompt,
};
use crate::sessions::SessionTable;
use crate::text::{blank, is_blank, lemma_trimmed_is_not_blank, trim, trimmed};
use crate::turn::{has_tool_use, uses_tools, visible, visible_text, GatedTurn};
use serde_json::Value;
use vstd::prelude::*;

verus! {

/// Maximum sessions of which one router instance keeps anything.
pub const MAX_SESSION_STATE: usize = 4096;

/// What stands for a completion without visible text.
pub const EMPTY_COMPLETION: &'static str = "(the efficient executor produced no visible completion)";

/// Configuration for [`PlanExecuteFinalize`].
#[derive(Clone, Debug)]
pub struct PlanExecuteFinalizeConfig {
    /// System instruction prepended while the capable model plans.
    pub planning_prompt: String,
    /// System instruction added when the capable model takes final control.
    pub finalizer_prompt: String,
    /// Pattern that identifies an executor completion response.
    pub terminal_pattern: String,
}

impl Default for PlanExecuteFinalizeConfig {
    fn default() -> (config: Self)
        ensures
            config.planning_prompt@ == trimmed(DEFAULT_PLANNING_PROMPT@),
            config.finalizer_prompt@ == trimmed(DEFAULT_FINALIZER_PROMPT@),
            config.terminal_pattern@ == DEFAULT_FINALIZER_TERMINAL_PATTERN@,
            finalize_config_fault(config) is None,
    {
        proof {
            lemma_planning_prompt();
            lemma_finalizer_prompt();
            lemma_terminal_pattern();
            lemma_trimmed_is_not_blank(DEFAULT_PLANNING_PROMPT@);
            lemma_trimmed_is_not_blank(DEFAULT_FINALIZER_PROMPT@);
        }
        PlanExecuteFinalizeConfig {
            planning_prompt: trim(DEFAULT_PLANNING_PROMPT).to_string(),
            finalizer_prompt: trim(DEFAULT_FINALIZER_PROMPT).to_string(),
            terminal_pattern: DEFAULT_FINALIZER_TERMINAL_PATTERN.to_string(),
        }
    }
}

/// The conversation with which a session's execution began.
#[derive(Debug)]
pub struct PlannerCheckpoint {
    pub messages: Vec<Message>,
    pub responses_input: Option<Vec<Value>>,
}

/// What a [`PlannerCheckpoint`] holds.
#[verifier::ext_equal]
pub struct PrefixView {
    pub messages: Seq<MessageView>,
    pub responses_input: Option<Seq<Json>>,
}

impl View for PlannerCheckpoint {
    type V = PrefixView;

    open spec fn view(&self) -> PrefixView {
        PrefixView {
            messages: messages_view(self.messages@),
            responses_input: match self.responses_input {
                Some(input) => Some(json_list(input@)),
                None => None,
            },
        }
    }
}

/// The conversation of a request, to be kept.
pub open spec fn prefix_of(request: RequestView) -> PrefixView {
    PrefixView { messages: request.messages, responses_input: request.responses_input() }
}

/// Whether the request's conversation begins with the prefix. Where both have
/// an OpenAI Responses conversation, that decides.
pub open spec fn begins_with(request: RequestView, prefix: PrefixView) -> bool {
    match (prefix.responses_input, request.responses_input()) {
        (Some(input), Some(current)) => input.len() > 0 && input.is_prefix_of(current),
        _ => prefix.messages.len() > 0 && prefix.messages.is_prefix_of(request.messages),
    }
}

/// The request with the prefix before its conversation.
pub open spec fn restored(request: RequestView, prefix: PrefixView) -> RequestView {
    let extended = RequestView { messages: prefix.messages + request.messages, ..request };
    match (prefix.responses_input, request.responses_input()) {
        (Some(input), Some(current)) => extended.with_responses_input(input + current),
        _ => extended,
    }
}

fn copy_values(values: &Vec<Value>) -> (copy: Vec<Value>)
    ensures
        json_list(copy@) == json_list(values@),
{
    let mut copy: Vec<Value> = Vec::new();
    append_values(&mut copy, values);
    assert(json_list(copy@) =~= json_list(values@));
    copy
}

fn append_values(list: &mut Vec<Value>, values: &Vec<Value>)
    ensures
        json_list(final(list)@) == json_list(old(list)@) + json_list(values@),
{
    let ghost before = list@;
    let mut i: usize = 0;
    assert(json_list(list@) =~= json_list(before) + json_list(values@).take(0));
    while i < values.len()
        invariant
            i <= values@.len(),
            json_list(list@) == json_list(before) + json_list(values@).take(i as int),
        decreases values@.len() - i,
    {
        let ghost current = list@;
        list.push(values[i].clone());
        proof {
            assert(json_list(list@) =~= json_list(current).push(json_of(values@[i as int])));
            assert(json_list(list@) =~= json_list(before) + json_list(values@).take(i + 1));
        }
        i += 1;
    }
    assert(json_list(values@).take(i as int) =~= json_list(values@));
}

/// The conversation of a request, to be kept.
pub fn planner_checkpoint(request: &Request) -> (prefix: PlannerCheckpoint)
    ensures
        prefix@ == prefix_of(request@),
{
    PlannerCheckpoint {
        messages: copy_messages(request.llm_request.messages.as_slice()),
        responses_input: match exact_responses_input(request) {
            Some(input) => Some(copy_values(input)),
            None => None,
        },
    }
}

/// The request with the prefix before its conversation.
pub fn restore_planner_prefix(prefix: &PlannerCheckpoint, current: &Request) -> (request: Request)
    ensures
        request@ == restored(current@, prefix@),
{
    let mut request = current.clone();
    let mut messages = copy_messages(prefix.messages.as_slice());
    let ghost head = messages@;
    let ghost tail = request.llm_request.messages@;
    messages.append(&mut request.llm_request.messages);
    assert(messages_view(messages@) =~= messages_view(head) + messages_view(tail));
    request.llm_request.messages = messages;
    assert(request@ == (RequestView {
        messages: prefix@.messages + current@.messages,
        ..current@
    }));
    if let Some(prefix_input) = &prefix.responses_input {
        if let Some(input) = exact_responses_input_mut(&mut request) {
            let mut items = copy_values(prefix_input);
            append_values(&mut items, input);
            *input = items;
        }
    }
    request
}

fn values_start_with(values: &Vec<Value>, prefix: &Vec<Value>) -> (found: bool)
    ensures
        found == json_list(prefix@).is_prefix_of(json_list(values@)),
{
    if prefix.len() > values.len() {
        return false;
    }
    let mut i: usize = 0;
    while i < prefix.len()
        invariant
            i <= prefix@.len() <= values@.len(),
            forall|j: int|
                0 <= j < i ==> #[trigger] json_list(prefix@)[j] == json_list(values@)[j],
        decreases prefix@.len() - i,
    {
        if !value_eq(&prefix[i], &values[i]) {
            proof {
                if json_list(prefix@).is_prefix_of(json_list(values@)) {
                    assert(json_list(values@).subrange(0, prefix@.len() as int)[i as int]
                        == json_list(prefix@)[i as int]);
                }
            }
            return false;
        }
        i += 1;
    }
    assert(json_list(values@).subrange(0, prefix@.len() as int) =~= json_list(prefix@));
    true
}

fn messages_start_with(messages: &Vec<Message>, prefix: &Vec<Message>) -> (found: bool)
    ensures
        found == messages_view(prefix@).is_prefix_of(messages_view(messages@)),
{
    if prefix.len() > messages.len() {
        return false;
    }
    let mut i: usize = 0;
    while i < prefix.len()
        invariant
            i <= prefix@.len() <= messages@.len(),
            forall|j: int|
                0 <= j < i ==> #[trigger] messages_view(prefix@)[j] == messages_view(messages@)[j],
        decreases prefix@.len() - i,
    {
        if !prefix[i].same(&messages[i]) {
            proof {
                if messages_view(prefix@).is_prefix_of(messages_view(messages@)) {
                    assert(messages_view(messages@).subrange(0, prefix@.len() as int)[i as int]
                        == messages_view(prefix@)[i as int]);
                }
            }
            return false;
        }
        i += 1;
    }
    assert(messages_view(messages@).subrange(0, prefix@.len() as int) =~= messages_view(prefix@));
    true
}

/// Whether the request's conversation begins with the prefix. Where both have
/// an OpenAI Responses conversation, that decides.
pub fn request_starts_with(prefix: &PlannerCheckpoint, current: &Request) -> (found: bool)
    ensures
        found == begins_with(current@, prefix@),
{
    if let Some(prefix_input) = &prefix.responses_input {
        if let Some(input) = exact_responses_input(current) {
            return !prefix_input.is_empty() && values_start_with(input, prefix_input);
        }
    }
    !prefix.messages.is_empty() && messages_start_with(
        &current.llm_request.messages,
        &prefix.messages,
    )
}

/// The names of a list of models.
pub open spec fn models_view(models: Seq<ModelId>) -> Seq<Seq<char>> {
    Seq::new(models.len(), |i: int| models[i]@)
}

/// Whether the request is sent to the first model, with the others as
/// fallbacks; without a model it is the error that names the phase.
pub open spec fn routed_first(
    result: Result<RoutingOutcome, LibsyError>,
    models: Seq<Seq<char>>,
    request: RequestView,
    phase: Seq<char>,
) -> bool {
    if models.len() == 0 {
        result matches Err(error) && error.says("no models available for "@ + phase + " phase"@)
    } else {
        result matches Ok(outcome) && (outcome matches RoutingOutcome::RouteTo {
            target,
            fallbacks,
            request: routed,
        } && target@ == models[0] && models_view(fallbacks@) == models.skip(1) && routed@
            == request)
    }
}

/// Sends the request to the first model, with the others as fallbacks.
pub fn route_first(models: &[ModelId], request: Request, phase: &str) -> (result: Result<
    RoutingOutcome,
    LibsyError,
>)
    ensures
        routed_first(result, models_view(models@), request@, phase@),
{
    if models.len() == 0 {
        let mut message = "no models available for ".to_string();
        message.append(phase);
        message.append(" phase");
        return Err(algorithm_error(message));
    }
    let target = models[0].clone();
    let mut fallbacks: Vec<ModelId> = Vec::new();
    let mut i: usize = 1;
    assert(models_view(fallbacks@) =~= models_view(models@).subrange(1, 1));
    while i < models.len()
        invariant
            1 <= i <= models@.len(),
            models_view(fallbacks@) == models_view(models@).subrange(1, i as int),
        decreases models@.len() - i,
    {
        let ghost before = fallbacks@;
        fallbacks.push(models[i].clone());
        proof {
            assert(models_view(fallbacks@) =~= models_view(before).push(models@[i as int]@));
            assert(models_view(fallbacks@) =~= models_view(models@).subrange(1, i + 1));
        }
        i += 1;
    }
    assert(models_view(models@).subrange(1, i as int) =~= models_view(models@).skip(1));
    Ok(RoutingOutcome::RouteTo { target, fallbacks, request })
}

/// What is wrong with a configuration, apart from a pattern that does not
/// compile.
pub open spec fn finalize_config_fault(config: PlanExecuteFinalizeConfig) -> Option<Seq<char>> {
    if blank(config.planning_prompt@) {
        Some("planning_prompt must not be empty"@)
    } else if blank(config.finalizer_prompt@) {
        Some("finalizer_prompt must not be empty"@)
    } else if config.terminal_pattern@.len() == 0 {
        Some("terminal_pattern must not be empty"@)
    } else {
        None
    }
}

/// What a [`PlanExecuteFinalize`] holds.
#[verifier::ext_equal]
pub struct FinalizeView {
    pub planning_prompt: Seq<char>,
    pub finalizer_prompt: Seq<char>,
    /// The system prompt of the finalizer.
    pub system_prompt: Seq<char>,
    pub pattern: regex::Regex,
    /// The sessions that have begun to execute.
    pub executing: Set<Seq<char>>,
    /// The sessions of which the capable model has final control.
    pub finalizing: Set<Seq<char>>,
    /// The conversations with which the sessions' execution began.
    pub prefixes: Map<Seq<char>, PrefixView>,
}

/// Routes planning and finalization to the capable model, with efficient
/// execution between them.
pub struct PlanExecuteFinalize {
    planning_prompt: String,
    finalizer_prompt: String,
    finalizer_system_prompt: String,
    terminal_pattern: regex::Regex,
    execution: ExecutionTracker,
    finalizing: SessionTable<()>,
    planner_checkpoints: SessionTable<PlannerCheckpoint>,
}

impl View for PlanExecuteFinalize {
    type V = FinalizeView;

    closed spec fn view(&self) -> FinalizeView {
        FinalizeView {
            planning_prompt: self.planning_prompt@,
            finalizer_prompt: self.finalizer_prompt@,
            system_prompt: self.finalizer_system_prompt@,
            pattern: self.terminal_pattern,
            executing: self.execution@,
            finalizing: self.finalizing@.dom(),
            prefixes: self.planner_checkpoints@,
        }
    }
}

/// The system prompt of the finalizer: the planner's prompt, then its own.
pub open spec fn both_prompts(planning: Seq<char>, finalizer: Seq<char>) -> Seq<char> {
    trimmed(planning) + "\n\n"@ + trimmed(finalizer)
}

/// A router made of this configuration and this compiled pattern, before its
/// first request.
pub open spec fn configured(config: PlanExecuteFinalizeConfig, pattern: regex::Regex) -> FinalizeView {
    FinalizeView {
        planning_prompt: config.planning_prompt@,
        finalizer_prompt: config.finalizer_prompt@,
        system_prompt: both_prompts(config.planning_prompt@, config.finalizer_prompt@),
        pattern,
        executing: Set::empty(),
        finalizing: Set::empty(),
        prefixes: Map::empty(),
    }
}

/// Whether the capable model has final control of the request's session.
pub open spec fn in_final_control(router: FinalizeView, request: RequestView) -> bool {
    request.identity matches Some(id) && router.finalizing.contains(id)
}

/// The router once the last request of a session has released the session's
/// final control and conversation.
pub open spec fn released(router: FinalizeView, request: RequestView) -> FinalizeView {
    match request.identity {
        Some(id) => if request.is_final() {
            FinalizeView {
                finalizing: router.finalizing.remove(id),
                prefixes: router.prefixes.remove(id),
                ..router
            }
        } else {
            router
        },
        None => router,
    }
}

/// Whether the router may go from `before` to `after` as the capable model
/// takes final control of the session. Where too many sessions are under
/// final control, one of them leaves, whichever.
pub open spec fn control_taken(before: FinalizeView, id: Seq<char>, after: FinalizeView) -> bool {
    if before.finalizing.contains(id) || before.finalizing.len() < MAX_SESSION_STATE {
        after == FinalizeView { finalizing: before.finalizing.insert(id), ..before }
    } else {
        exists|evicted: Seq<char>| #[trigger]
            before.finalizing.contains(evicted) && after == FinalizeView {
                finalizing: before.finalizing.remove(evicted).insert(id),
                prefixes: before.prefixes.remove(evicted),
                ..before
            }
    }
}

/// Whether any message edits or writes files.
pub open spec fn any_mutates(messages: Seq<MessageView>) -> bool {
    exists|i: int| 0 <= i < messages.len() && message_mutates(#[trigger] messages[i])
}

/// The conversation with which the execution of the request's session began,
/// as it is known once the request is seen.
pub open spec fn known_prefix(router: FinalizeView, request: RequestView) -> Option<PrefixView> {
    match request.identity {
        Some(id) => if router.prefixes.contains_key(id) {
            Some(router.prefixes[id])
        } else if any_mutates(request.messages) {
            Some(prefix_of(request))
        } else {
            None
        },
        None => None,
    }
}

/// The request with the conversation with which its session's execution
/// began: as it is, where it begins with that or none is known.
pub open spec fn context_of(router: FinalizeView, request: RequestView) -> RequestView {
    match known_prefix(router, request) {
        Some(prefix) => if begins_with(request, prefix) {
            request
        } else {
            restored(request, prefix)
        },
        None => request,
    }
}

/// Whether the router may go from `before` to `after` as it sees the
/// request's conversation. The first one with an edit is kept; where too many
/// are kept, one of them leaves, whichever.
pub open spec fn prefix_kept(before: FinalizeView, request: RequestView, after: FinalizeView) -> bool {
    match request.identity {
        Some(id) => if before.prefixes.contains_key(id) || !any_mutates(request.messages) {
            after == before
        } else if before.prefixes.len() < MAX_SESSION_STATE {
            after == FinalizeView {
                prefixes: before.prefixes.insert(id, prefix_of(request)),
                ..before
            }
        } else {
            exists|evicted: Seq<char>| #[trigger]
                before.prefixes.contains_key(evicted) && after == FinalizeView {
                    prefixes: before.prefixes.remove(evicted).insert(id, prefix_of(request)),
                    ..before
                }
        },
        None => after == before,
    }
}

/// Whether the turn declares the task complete: it uses no tools, and its
/// visible text matches the pattern.
pub open spec fn declares_completion(pattern: regex::Regex, response: AggLlmResponse) -> bool {
    !uses_tools(response) && (visible(response) matches Some(text) && regex_matches(pattern, text))
}

/// The note that a router leaves where it gives final control back.
pub open spec fn finalize_evidence() -> Json {
    Json::Object(
        Map::empty().insert("source"@, Json::Text("plan_execute_finalize"@)).insert(
            "verdict"@,
            Json::Text("finalize"@),
        ),
    )
}

fn evidence_value() -> (evidence: Value)
    ensures
        json_of(evidence) == finalize_evidence(),
{
    let mut members = map_new();
    map_insert(
        &mut members,
        "source".to_string(),
        text_value("plan_execute_finalize".to_string()),
    );
    map_insert(&mut members, "verdict".to_string(), text_value("finalize".to_string()));
    object_value(members)
}

/// What is to be done with a request.
#[derive(Debug)]
pub enum FinalizeStep {
    /// The capable model plans.
    Plan(RoutingOutcome),
    /// The capable model goes on under final control.
    Finalize(RoutingOutcome),
    /// The request is to be sent to the efficient models, the first of which
    /// is `selected`, and the answer decides.
    Execute { request: Request, models: Vec<ModelId>, selected: ModelId },
}

/// What is to be done with the efficient model's answer.
#[derive(Debug)]
pub enum TurnVerdict {
    /// The answer goes to the client.
    Answered(RoutingOutcome),
    /// The capable model takes final control, after this completion.
    Finalize { request: Request, completion: AggLlmResponse, evidence: Value },
}

impl PlanExecuteFinalize {
    /// What the router keeps of its sessions is sound and within its bounds,
    /// and the finalizer's system prompt is made of the two prompts.
    pub closed spec fn wf(self) -> bool {
        &&& self.execution.wf()
        &&& self.finalizing.wf()
        &&& self.planner_checkpoints.wf()
        &&& within_bounds(self@)
        &&& self@.system_prompt == both_prompts(self@.planning_prompt, self@.finalizer_prompt)
    }

    /// The finalizer's system prompt is the planner's prompt, then its own.
    pub proof fn law_system_prompt_holds_both_prompts(self)
        requires
            self.wf(),
        ensures
            self@.system_prompt == both_prompts(self@.planning_prompt, self@.finalizer_prompt),
    {
    }

    /// A router keeps a bounded number of sessions.
    pub proof fn law_within_bounds(self)
        requires
            self.wf(),
        ensures
            within_bounds(self@),
    {
    }

    /// Creates a plan, execute, and capable-finalize router, where `compiled`
    /// is what became of the terminal pattern.
    pub fn with_pattern(
        config: PlanExecuteFinalizeConfig,
        compiled: Result<regex::Regex, regex::Error>,
    ) -> (result: Result<PlanExecuteFinalize, LibsyError>)
        ensures
            match finalize_config_fault(config) {
                Some(message) => result matches Err(error) && error.says(message),
                None => match compiled {
                    Ok(pattern) => result matches Ok(router) && router.wf() && router@
                        == configured(config, pattern),
                    Err(fault) => result matches Err(error) && error.says(
                        "terminal_pattern is invalid: "@ + regex_error_text(fault),
                    ),
                },
            },
    {
        if is_blank(config.planning_prompt.as_str()) {
            return Err(algorithm_error("planning_prompt must not be empty".to_string()));
        }
        if is_blank(config.finalizer_prompt.as_str()) {
            return Err(algorithm_error("finalizer_prompt must not be empty".to_string()));
        }
        if config.terminal_pattern.as_str().is_empty() {
            return Err(algorithm_error("terminal_pattern must not be empty".to_string()));
        }
        let terminal_pattern = match compiled {
            Ok(pattern) => pattern,
            Err(fault) => {
                let mut message = "terminal_pattern is invalid: ".to_string();
                message.append(error_text(&fault).as_str());
                return Err(algorithm_error(message));
            },
        };
        let mut finalizer_system_prompt = trim(config.planning_prompt.as_str()).to_string();
        finalizer_system_prompt.append("\n\n");
        finalizer_system_prompt.append(trim(config.finalizer_prompt.as_str()));
        let router = PlanExecuteFinalize {
            planning_prompt: config.planning_prompt,
            finalizer_prompt: config.finalizer_prompt,
            finalizer_system_prompt,
            terminal_pattern,
            execution: ExecutionTracker::new(),
            finalizing: SessionTable::new(),
            planner_checkpoints: SessionTable::new(),
        };
        assert(router@.finalizing =~= Set::empty());
        Ok(router)
    }

    /// Creates a plan, execute, and capable-finalize router.
    pub fn new(config: PlanExecuteFinalizeConfig) -> (result: Result<PlanExecuteFinalize, LibsyError>)
        ensures
            match finalize_config_fault(config) {
                Some(message) => result matches Err(error) && error.says(message),
                None => match result {
                    Ok(router) => pattern_parses(config.terminal_pattern@) && router.wf() && router@
                        == configured(config, router@.pattern) && forall|text: Seq<char>| #[trigger]
                        regex_matches(router@.pattern, text) == pattern_matches(
                            config.terminal_pattern@,
                            text,
                        ),
                    Err(error) => exists|fault: regex::Error|
                        error.says(
                            "terminal_pattern is invalid: "@ + #[trigger] regex_error_text(fault),
                        ) && may_refuse(config.terminal_pattern@, fault) && is_size_error(fault)
                            == pattern_parses(config.terminal_pattern@),
                },
            },
    {
        let compiled = compile(config.terminal_pattern.as_str());
        PlanExecuteFinalize::with_pattern(config, compiled)
    }

    /// The router's name.
    pub fn name(&self) -> (name: &'static str)
        ensures
            name@ == "plan_execute_finalize"@,
    {
        "plan_execute_finalize"
    }

    /// The prompt with which the capable model takes final control.
    pub fn finalizer_prompt(&self) -> (prompt: &str)
        ensures
            prompt@ == self@.finalizer_prompt,
    {
        self.finalizer_prompt.as_str()
    }

    /// Whether the capable model has final control of the request's session.
    /// The last request of a session releases the session.
    pub fn is_finalizing(&mut self, request: &Request) -> (active: bool)
        requires
            old(self).wf(),
        ensures
            final(self).wf(),
            active == in_final_control(old(self)@, request@),
            final(self)@ == released(old(self)@, request@),
    {
        let ghost before = self@;
        let identity = match &request.identity {
            Some(identity) => identity,
            None => {
                return false;
            },
        };
        let active = self.finalizing.contains(identity);
        if request.is_final() {
            let _ = self.finalizing.remove(identity);
            let _ = self.planner_checkpoints.remove(identity);
            assert(self@.finalizing =~= before.finalizing.remove(identity@));
        }
        active
    }

    /// Gives the capable model final control of the request's session.
    pub fn begin_finalizing(&mut self, request: &Request) -> (result: Result<(), LibsyError>)
        requires
            old(self).wf(),
        ensures
            final(self).wf(),
            match request@.identity {
                Some(id) => result is Ok && control_taken(old(self)@, id, final(self)@),
                None => (result matches Err(error) && error.says(
                    "plan_execute_finalize requires a session identity"@,
                )) && final(self)@ == old(self)@,
            },
    {
        let ghost before = self@;
        let identity = match &request.identity {
            Some(identity) => identity,
            None => {
                return Err(
                    algorithm_error("plan_execute_finalize requires a session identity".to_string()),
                );
            },
        };
        if self.finalizing.len() >= MAX_SESSION_STATE && !self.finalizing.contains(identity) {
            let evicted = self.finalizing.evict();
            let _ = self.planner_checkpoints.remove(&evicted);
            assert(self@.finalizing =~= before.finalizing.remove(evicted@));
        }
        let ghost admitted = self@;
        self.finalizing.insert(identity.clone(), ());
        assert(self@.finalizing =~= admitted.finalizing.insert(identity@));
        Ok(())
    }

    /// The request with the conversation with which its session's execution
    /// began. The first conversation with an edit is kept for that.
    pub fn execution_context(&mut self, request: &Request) -> (context: Request)
        requires
            old(self).wf(),
        ensures
            final(self).wf(),
            context@ == context_of(old(self)@, request@),
            prefix_kept(old(self)@, request@, final(self)@),
    {
        let identity = match &request.identity {
            Some(identity) => identity,
            None => {
                return request.clone();
            },
        };
        let request_has_mutation = has_mutation(request);
        if request_has_mutation && !self.planner_checkpoints.contains(identity) {
            if self.planner_checkpoints.len() >= MAX_SESSION_STATE {
                let _ = self.planner_checkpoints.evict();
            }
            self.planner_checkpoints.insert(identity.clone(), planner_checkpoint(request));
        }
        match self.planner_checkpoints.get(identity) {
            Some(prefix) => if request_starts_with(prefix, request) {
                request.clone()
            } else {
                restore_planner_prefix(prefix, request)
            },
            None => request.clone(),
        }
    }

    /// The finalizer's first request, as far as the completion: the context
    /// of the execution, then the completion as `echo` tells it.
    pub fn open_finalizer_request(&mut self, request: &Request, echo: Message) -> (finalizer:
        Request)
        requires
            old(self).wf(),
        ensures
            final(self).wf(),
            prefix_kept(old(self)@, request@, final(self)@),
            finalizer@ == (RequestView {
                messages: context_of(old(self)@, request@).messages.push(echo@),
                ..context_of(old(self)@, request@)
            }),
    {
        let mut finalizer = self.execution_context(request);
        let ghost before = finalizer.llm_request.messages@;
        finalizer.llm_request.messages.push(echo);
        assert(messages_view(finalizer.llm_request.messages@) =~= messages_view(before).push(echo@));
        finalizer
    }

    /// The finalizer's first request, completed: the finalizer's prompt ends
    /// the messages and its system prompt begins the instructions. The
    /// preserved OpenAI Responses body stays only where it was extended in
    /// the same way.
    pub fn close_finalizer_request(&self, opened: Request, exact_extended: bool) -> (finalizer:
        Request)
        ensures
            finalizer@ == finalizer_request(self@, opened@, exact_extended),
    {
        let mut finalizer = opened;
        let ghost before = finalizer.llm_request.messages@;
        finalizer.llm_request.messages.push(
            Message::text(Role::User, self.finalizer_prompt.as_str()),
        );
        assert(messages_view(finalizer.llm_request.messages@) =~= messages_view(before).push(
            text_message(Role::User, self.finalizer_prompt@),
        ));
        prepend_system_prompt_preserving_responses(
            &mut finalizer,
            self.finalizer_system_prompt.as_str(),
        );
        if !exact_extended {
            drop_exact_replay(&mut finalizer);
        }
        finalizer
    }

    /// A later request of the finalizer: the context of the execution, behind
    /// the finalizer's system prompt.
    pub fn prepare_continuation(&mut self, request: &Request) -> (continued: Request)
        requires
            old(self).wf(),
        ensures
            final(self).wf(),
            prefix_kept(old(self)@, request@, final(self)@),
            continued@ == with_prompt(context_of(old(self)@, request@), old(self)@.system_prompt),
    {
        let mut continued = self.execution_context(request);
        prepend_system_prompt_preserving_responses(
            &mut continued,
            self.finalizer_system_prompt.as_str(),
        );
        continued
    }

    /// Decides a request. Under final control the capable model goes on;
    /// before execution it plans; during execution the efficient model is to
    /// answer first.
    pub fn route(
        &mut self,
        request: Request,
        signals: ToolSignals,
        capable: &[ModelId],
        efficient: &[ModelId],
    ) -> (result: Result<FinalizeStep, LibsyError>)
        requires
            old(self).wf(),
        ensures
            final(self).wf(),
            if in_final_control(old(self)@, request@) {
                &&& prefix_kept(released(old(self)@, request@), request@, final(self)@)
                &&& finalize_routed(
                    result,
                    models_view(capable@),
                    with_prompt(
                        context_of(released(old(self)@, request@), request@),
                        old(self)@.system_prompt,
                    ),
                )
            } else {
                &&& final(self)@ == (FinalizeView {
                    executing: final(self)@.executing,
                    ..released(old(self)@, request@)
                })
                &&& latch_step(
                    old(self)@.executing,
                    request@,
                    signals.mutation_seen(),
                    final(self)@.executing,
                    is_latched(old(self)@.executing, request@, signals.mutation_seen()),
                )
                &&& if !is_latched(old(self)@.executing, request@, signals.mutation_seen()) {
                    plan_routed(
                        result,
                        models_view(capable@),
                        planning_request(request@, old(self)@.planning_prompt),
                    )
                } else if efficient@.len() == 0 {
                    result matches Err(error) && error.says(
                        "no models available for category Efficient"@,
                    )
                } else {
                    result matches Ok(step) && (step matches FinalizeStep::Execute {
                        request: executed,
                        models,
                        selected,
                    } && executed == request && models_view(models@) == models_view(efficient@)
                        && selected@ == efficient@[0]@)
                }
            },
    {
        if self.is_finalizing(&request) {
            let continued = self.prepare_continuation(&request);
            return match route_first(capable, continued, "finalize") {
                Ok(outcome) => Ok(FinalizeStep::Finalize(outcome)),
                Err(error) => Err(error),
            };
        }
        if !self.execution.is_executing(&request, signals) {
            let mut planned = request;
            prepend_system_prompt(&mut planned, self.planning_prompt.as_str());
            return match route_first(capable, planned, "plan") {
                Ok(outcome) => Ok(FinalizeStep::Plan(outcome)),
                Err(error) => Err(error),
            };
        }
        if efficient.len() == 0 {
            return Err(
                algorithm_error("no models available for category Efficient".to_string()),
            );
        }
        let selected = efficient[0].clone();
        Ok(FinalizeStep::Execute { request, models: copy_models(efficient), selected })
    }

    /// Decides on the efficient model's answer. Where it declares the task
    /// complete, the capable model takes final control; otherwise the answer
    /// goes to the client as it came.
    pub fn settle_turn(&mut self, request: Request, served: ModelId, turn: GatedTurn) -> (result:
        Result<TurnVerdict, LibsyError>)
        requires
            old(self).wf(),
        ensures
            final(self).wf(),
            if !declares_completion(old(self)@.pattern, turn.agg) {
                &&& final(self)@ == old(self)@
                &&& result matches Ok(verdict) && verdict == TurnVerdict::Answered(
                    RoutingOutcome::Answered { model: served, request, response: turn.response() },
                )
            } else {
                match request@.identity {
                    Some(id) => control_taken(old(self)@, id, final(self)@) && (
                    result matches Ok(verdict) && (verdict matches TurnVerdict::Finalize {
                        request: finalized,
                        completion,
                        evidence,
                    } && finalized == request && completion == turn.agg && json_of(evidence)
                        == finalize_evidence())),
                    None => final(self)@ == old(self)@ && (result matches Err(error) && error.says(
                        "plan_execute_finalize requires a session identity"@,
                    )),
                }
            },
    {
        let terminal = !has_tool_use(&turn.agg) && match visible_text(&turn.agg) {
            Some(text) => is_match(&self.terminal_pattern, text.as_str()),
            None => false,
        };
        if !terminal {
            return Ok(
                TurnVerdict::Answered(
                    RoutingOutcome::Answered {
                        model: served,
                        request,
                        response: turn.into_response(),
                    },
                ),
            );
        }
        match self.begin_finalizing(&request) {
            Ok(()) => Ok(
                TurnVerdict::Finalize {
                    request,
                    completion: turn.agg,
                    evidence: evidence_value(),
                },
            ),
            Err(error) => Err(error),
        }
    }
}

/// Whether the request is sent to the first model to plan, as
/// [`routed_first`] says.
pub open spec fn plan_routed(
    result: Result<FinalizeStep, LibsyError>,
    models: Seq<Seq<char>>,
    request: RequestView,
) -> bool {
    match result {
        Ok(FinalizeStep::Plan(outcome)) => routed_first(Ok(outcome), models, request, "plan"@),
        Ok(_) => false,
        Err(error) => routed_first(Err(error), models, request, "plan"@),
    }
}

/// Whether the request is sent to the first model to finalize, as
/// [`routed_first`] says.
pub open spec fn finalize_routed(
    result: Result<FinalizeStep, LibsyError>,
    models: Seq<Seq<char>>,
    request: RequestView,
) -> bool {
    match result {
        Ok(FinalizeStep::Finalize(outcome)) => routed_first(
            Ok(outcome),
            models,
            request,
            "finalize"@,
        ),
        Ok(_) => false,
        Err(error) => routed_first(Err(error), models, request, "finalize"@),
    }
}

fn copy_models(models: &[ModelId]) -> (copy: Vec<ModelId>)
    ensures
        models_view(copy@) == models_view(models@),
{
    let mut copy: Vec<ModelId> = Vec::new();
    let mut i: usize = 0;
    while i < models.len()
        invariant
            i <= models@.len(),
            copy@.len() == i,
            forall|j: int| 0 <= j < i ==> (#[trigger] copy@[j])@ == models@[j]@,
        decreases models@.len() - i,
    {
        copy.push(models[i].clone());
        i += 1;
    }
    assert(models_view(copy@) =~= models_view(models@));
    copy
}

/// The finalizer's first request, made of the opened one.
pub open spec fn finalizer_request(
    router: FinalizeView,
    opened: RequestView,
    exact_extended: bool,
) -> RequestView {
    let prompted = with_prompt(
        RequestView {
            messages: opened.messages.push(text_message(Role::User, router.finalizer_prompt)),
            ..opened
        },
        router.system_prompt,
    );
    if exact_extended {
        prompted
    } else {
        RequestView { requests: no_bodies(), ..prompted }
    }
}

fn has_mutation(request: &Request) -> (found: bool)
    ensures
        found == any_mutates(request@.messages),
{
    let messages = &request.llm_request.messages;
    let mut i: usize = 0;
    while i < messages.len()
        invariant
            i <= messages@.len(),
            messages == request.llm_request.messages,
            forall|j: int| 0 <= j < i ==> !message_mutates(#[trigger] request@.messages[j]),
        decreases messages@.len() - i,
    {
        if message_has_mutation(&messages[i]) {
            assert(message_mutates(request@.messages[i as int]));
            return true;
        }
        i += 1;
    }
    false
}

/// A router keeps a bounded number of sessions.
pub open spec fn within_bounds(router: FinalizeView) -> bool {
    &&& router.finalizing.finite()
    &&& router.finalizing.len() <= MAX_SESSION_STATE
    &&& router.prefixes.dom().finite()
    &&& router.prefixes.len() <= MAX_SESSION_STATE
}

} // verus!
