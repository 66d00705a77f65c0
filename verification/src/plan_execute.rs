//! Starts coding tasks on a capable planner, then hands execution to an
//! efficient model.

use crate::blocks::{
    as_text, block_calls, block_texts, blocks_of, calls_of, calls_view, join_lines,
    message_blocks, output_blocks, response_blocks,
};
use crate::compaction::{
    compact_messages, compact_responses_input, compacted, judged, mutating_call, raw_compacted,
    unjudged,
};
use crate::error::{algorithm_error, LibsyError};
use crate::prompts::{
    lemma_checkpoint_prompt, lemma_planning_prompt, DEFAULT_CHECKPOINT_PROMPT,
    DEFAULT_PLANNING_PROMPT,
};
use crate::protocol::{
    no_bodies, AggLlmResponse, CallView, LlmResponse, MessageView, Metadata, ModelId, Request,
    RequestView, Response, RoutingOutcome, ToolCall, ToolChoice, ToolChoiceView,
};
use crate::replay::{
    append_note, append_note_preserving_responses, exact_responses_input_mut, noted_messages,
    prepend_system_prompt, prompted, with_note,
};
use crate::sessions::{IdSet, SessionTable};
use crate::text::{blank, is_blank, joined, lemma_trimmed_is_not_blank, trim, trimmed};
use crate::turn::{calls_tools, has_tool_call};
use vstd::prelude::*;

verus! {

/// Maximum session latches retained by one router instance.
pub const MAX_EXECUTING_SESSIONS: usize = 4096;

/// Configuration for [`PlanExecute`].
#[derive(Clone, Debug)]
pub struct PlanExecuteConfig {
    /// System instruction prepended until the first edit or write tool call.
    pub planning_prompt: String,
    /// Planner instruction appended during recurring execution checkpoints.
    pub checkpoint_prompt: String,
    /// Efficient-model turns between checkpoints. Zero disables checkpoints.
    pub checkpoint_interval_turns: u32,
    /// Maximum checkpoints opened during one session.
    pub max_checkpoints: u32,
    /// Maximum capable-model turns within one checkpoint.
    pub max_checkpoint_turns: u32,
    /// Maximum capable-model checkpoint turns across one session.
    pub max_checkpoint_turns_total: u32,
}

impl Default for PlanExecuteConfig {
    fn default() -> (config: Self)
        ensures
            config.planning_prompt@ == trimmed(DEFAULT_PLANNING_PROMPT@),
            config.checkpoint_prompt@ == trimmed(DEFAULT_CHECKPOINT_PROMPT@),
            config.checkpoint_interval_turns == 0,
            config.max_checkpoints == 8,
            config.max_checkpoint_turns == 4,
            config.max_checkpoint_turns_total == 16,
            config_fault(config) is None,
            !blank(config.checkpoint_prompt@),
    {
        proof {
            lemma_planning_prompt();
            lemma_checkpoint_prompt();
            lemma_trimmed_is_not_blank(DEFAULT_PLANNING_PROMPT@);
            lemma_trimmed_is_not_blank(DEFAULT_CHECKPOINT_PROMPT@);
        }
        PlanExecuteConfig {
            planning_prompt: trim(DEFAULT_PLANNING_PROMPT).to_string(),
            checkpoint_prompt: trim(DEFAULT_CHECKPOINT_PROMPT).to_string(),
            checkpoint_interval_turns: 0,
            max_checkpoints: 8,
            max_checkpoint_turns: 4,
            max_checkpoint_turns_total: 16,
        }
    }
}

/// How often the planner re-enters, and for how long.
#[derive(Clone, Copy, Debug)]
pub struct CheckpointLimits {
    pub interval_turns: u32,
    pub max_checkpoints: u32,
    pub max_turns: u32,
    pub max_turns_total: u32,
}

impl CheckpointLimits {
    /// Where checkpoints are enabled, each limit leaves room for one.
    pub open spec fn wf(self) -> bool {
        self.interval_turns > 0 ==> self.max_checkpoints > 0 && self.max_turns > 0
            && self.max_turns_total > 0
    }
}

/// What the tool signals count in a request.
#[derive(Clone, Copy, Debug)]
pub struct ToolSignals {
    pub edit_count: u64,
    pub write_count: u64,
}

impl ToolSignals {
    /// Whether a file was edited or written.
    pub open spec fn mutation_seen(self) -> bool {
        self.edit_count > 0 || self.write_count > 0
    }
}

/// How far the execution of one session has come.
#[derive(Debug)]
pub struct ExecutionState {
    pub efficient_turns: u32,
    pub checkpoints: u32,
    pub checkpoint_turns: Option<u32>,
    pub checkpoint_turns_total: u32,
    pub checkpoint_known_mutations: IdSet,
}

/// What an [`ExecutionState`] holds.
#[verifier::ext_equal]
pub struct ExecutionView {
    /// Turns of the efficient model since the last checkpoint.
    pub efficient_turns: u32,
    /// Checkpoints opened.
    pub checkpoints: u32,
    /// Turns of the open checkpoint.
    pub checkpoint_turns: Option<u32>,
    /// Turns of all checkpoints.
    pub checkpoint_turns_total: u32,
    /// The edits that were known when the open checkpoint was opened.
    pub known: Set<Seq<char>>,
}

impl View for ExecutionState {
    type V = ExecutionView;

    open spec fn view(&self) -> ExecutionView {
        ExecutionView {
            efficient_turns: self.efficient_turns,
            checkpoints: self.checkpoints,
            checkpoint_turns: self.checkpoint_turns,
            checkpoint_turns_total: self.checkpoint_turns_total,
            known: self.checkpoint_known_mutations@,
        }
    }
}

/// Who takes a turn.
#[derive(Clone, Copy, Debug, PartialEq, Eq, Structural)]
pub enum Phase {
    /// The capable model plans.
    Plan,
    /// The efficient model executes.
    Execute,
    /// The capable model inspects the execution. It is told to hand back
    /// without tools where its turns are used up.
    Checkpoint { force_handoff: bool },
}

/// One more, as far as the type goes.
pub open spec fn one_more(count: u32) -> u32 {
    if count == u32::MAX {
        count
    } else {
        (count + 1) as u32
    }
}

/// A session that has just begun to execute.
pub open spec fn fresh() -> ExecutionView {
    ExecutionView {
        efficient_turns: 0,
        checkpoints: 0,
        checkpoint_turns: None,
        checkpoint_turns_total: 0,
        known: Set::empty(),
    }
}

/// The session once execution is handed back to the efficient model, whose
/// turn this is.
pub open spec fn handed_back(state: ExecutionView) -> ExecutionView {
    ExecutionView {
        efficient_turns: 1,
        checkpoint_turns: None,
        known: Set::empty(),
        ..state
    }
}

/// Whether a checkpoint is due in a session without an open one.
pub open spec fn checkpoint_due(limits: CheckpointLimits, state: ExecutionView) -> bool {
    &&& limits.interval_turns > 0
    &&& state.efficient_turns >= limits.interval_turns
    &&& state.checkpoints < limits.max_checkpoints
    &&& state.checkpoint_turns_total < limits.max_turns_total
}

/// Whether the turns of the open checkpoint, or of all checkpoints, are used up.
pub open spec fn turns_used_up(limits: CheckpointLimits, state: ExecutionView) -> bool {
    state.checkpoint_turns matches Some(turns) && (turns >= limits.max_turns
        || state.checkpoint_turns_total >= limits.max_turns_total)
}

/// The next turn of an executing session whose conversation holds these
/// edits, and who takes it. A checkpoint ends where a new edit shows, and
/// where its turns are used up.
pub open spec fn advance(
    limits: CheckpointLimits,
    state: ExecutionView,
    mutations: Set<Seq<char>>,
) -> (ExecutionView, Phase) {
    match state.checkpoint_turns {
        Some(turns) => if !turns_used_up(limits, state) && mutations.subset_of(state.known) {
            let next = ExecutionView {
                checkpoint_turns: Some(one_more(turns)),
                checkpoint_turns_total: one_more(state.checkpoint_turns_total),
                ..state
            };
            (next, Phase::Checkpoint { force_handoff: turns_used_up(limits, next) })
        } else {
            (handed_back(state), Phase::Execute)
        },
        None => if checkpoint_due(limits, state) {
            let next = ExecutionView {
                checkpoints: one_more(state.checkpoints),
                checkpoint_turns: Some(1),
                checkpoint_turns_total: one_more(state.checkpoint_turns_total),
                known: mutations,
                ..state
            };
            (next, Phase::Checkpoint { force_handoff: turns_used_up(limits, next) })
        } else {
            let next = ExecutionView { efficient_turns: one_more(state.efficient_turns), ..state };
            (next, Phase::Execute)
        },
    }
}

/// The ids of the calls in these messages that edit or write files.
pub open spec fn mutation_ids(messages: Seq<MessageView>) -> Set<Seq<char>> {
    mutation_ids_among(
        calls_of(blocks_of(messages)),
        calls_of(blocks_of(messages)).len() as int,
    )
}

/// The ids of the calls that edit or write files, among the first `n`.
pub open spec fn mutation_ids_among(calls: Seq<CallView>, n: int) -> Set<Seq<char>> {
    Set::new(
        |id: Seq<char>|
            exists|k: int| 0 <= k < n && (#[trigger] calls[k]).id == id && calls[k].mutating,
    )
}

/// What a [`PlanExecute`] holds.
#[verifier::ext_equal]
pub struct PlanExecuteView {
    pub capable: Seq<char>,
    pub efficient: Seq<char>,
    pub planning_prompt: Seq<char>,
    pub checkpoint_prompt: Seq<char>,
    pub limits: CheckpointLimits,
    /// The sessions that execute.
    pub sessions: Map<Seq<char>, ExecutionView>,
}

/// Routes planning turns to a capable model and all turns after the first
/// edit to an efficient model, while preserving the caller's full trajectory.
pub struct PlanExecute {
    capable: ModelId,
    efficient: ModelId,
    planning_prompt: String,
    checkpoint_prompt: String,
    limits: CheckpointLimits,
    sessions: SessionTable<ExecutionState>,
}

impl View for PlanExecute {
    type V = PlanExecuteView;

    closed spec fn view(&self) -> PlanExecuteView {
        PlanExecuteView {
            capable: self.capable@,
            efficient: self.efficient@,
            planning_prompt: self.planning_prompt@,
            checkpoint_prompt: self.checkpoint_prompt@,
            limits: self.limits,
            sessions: self.sessions@,
        }
    }
}

/// What is wrong with a configuration.
pub open spec fn config_fault(config: PlanExecuteConfig) -> Option<Seq<char>> {
    if blank(config.planning_prompt@) {
        Some("planning_prompt must not be empty"@)
    } else if config.checkpoint_interval_turns > 0 && blank(config.checkpoint_prompt@) {
        Some("checkpoint_prompt must not be empty when checkpoints are enabled"@)
    } else if config.checkpoint_interval_turns > 0 && (config.max_checkpoints == 0
        || config.max_checkpoint_turns == 0 || config.max_checkpoint_turns_total == 0) {
        Some("checkpoint limits must be at least 1 when checkpoints are enabled"@)
    } else {
        None
    }
}

/// Who takes a turn of a request that belongs to no executing session.
pub open spec fn phase_by_history(mutation_seen: bool) -> Phase {
    if mutation_seen {
        Phase::Execute
    } else {
        Phase::Plan
    }
}

/// Whether the router may go from `before` to `after` on this request, with
/// this phase. Which session leaves a full table is left open.
pub open spec fn phase_step(
    before: PlanExecuteView,
    request: RequestView,
    mutation_seen: bool,
    after: PlanExecuteView,
    phase: Phase,
) -> bool {
    match request.identity {
        None => after == before && phase == phase_by_history(mutation_seen),
        Some(id) => {
            let executing = before.sessions.contains_key(id);
            if request.is_final() {
                &&& after == PlanExecuteView { sessions: before.sessions.remove(id), ..before }
                &&& phase == phase_by_history(mutation_seen || executing)
            } else if !mutation_seen && !executing {
                after == before && phase == Phase::Plan
            } else {
                let state = if executing {
                    before.sessions[id]
                } else {
                    fresh()
                };
                let (next, turn) = advance(before.limits, state, mutation_ids(request.messages));
                &&& phase == turn
                &&& if executing || before.sessions.len() < MAX_EXECUTING_SESSIONS {
                    after == PlanExecuteView { sessions: before.sessions.insert(id, next), ..before }
                } else {
                    exists|evicted: Seq<char>| #[trigger]
                        before.sessions.contains_key(evicted) && after == PlanExecuteView {
                            sessions: before.sessions.remove(evicted).insert(id, next),
                            ..before
                        }
                }
            }
        },
    }
}

/// The session's state once it is handed back, where it executes.
pub open spec fn checkpoint_finished(
    router: PlanExecuteView,
    request: RequestView,
) -> PlanExecuteView {
    match request.identity {
        Some(id) => if router.sessions.contains_key(id) {
            PlanExecuteView {
                sessions: router.sessions.insert(id, handed_back(router.sessions[id])),
                ..router
            }
        } else {
            router
        },
        None => router,
    }
}

fn advance_state(
    state: &mut ExecutionState,
    limits: CheckpointLimits,
    mutations: IdSet,
) -> (phase: Phase)
    requires
        limits.wf(),
    ensures
        (final(state)@, phase) == advance(limits, old(state)@, mutations@),
{
    if let Some(turns) = state.checkpoint_turns {
        let used_up = turns >= limits.max_turns || state.checkpoint_turns_total
            >= limits.max_turns_total;
        if used_up || !mutations.is_subset(&state.checkpoint_known_mutations) {
            hand_back(state);
            return Phase::Execute;
        }
        let turns = turns.saturating_add(1);
        state.checkpoint_turns = Some(turns);
        state.checkpoint_turns_total = state.checkpoint_turns_total.saturating_add(1);
        return Phase::Checkpoint {
            force_handoff: turns >= limits.max_turns || state.checkpoint_turns_total
                >= limits.max_turns_total,
        };
    }
    if limits.interval_turns > 0 && state.efficient_turns >= limits.interval_turns
        && state.checkpoints < limits.max_checkpoints && state.checkpoint_turns_total
        < limits.max_turns_total {
        state.checkpoints = state.checkpoints + 1;
        state.checkpoint_turns = Some(1);
        state.checkpoint_turns_total = state.checkpoint_turns_total + 1;
        state.checkpoint_known_mutations = mutations;
        return Phase::Checkpoint {
            force_handoff: limits.max_turns == 1 || state.checkpoint_turns_total
                >= limits.max_turns_total,
        };
    }
    state.efficient_turns = state.efficient_turns.saturating_add(1);
    Phase::Execute
}

fn hand_back(state: &mut ExecutionState)
    ensures
        final(state)@ == handed_back(old(state)@),
{
    state.checkpoint_turns = None;
    state.checkpoint_known_mutations = IdSet::new();
    state.efficient_turns = 1;
}

/// The ids of the calls in the request's messages that edit or write files.
pub fn mutation_call_ids(request: &Request) -> (ids: IdSet)
    ensures
        ids@ == mutation_ids(request@.messages),
{
    let blocks = message_blocks(request.llm_request.messages.as_slice());
    let calls = block_calls(&blocks);
    let ghost views = calls_of(blocks_of(request@.messages));
    let mut ids = IdSet::new();
    let mut k: usize = 0;
    assert(ids@ =~= mutation_ids_among(views, 0));
    while k < calls.len()
        invariant
            k <= calls@.len(),
            views == calls_view(calls@),
            ids@ == mutation_ids_among(views, k as int),
        decreases calls@.len() - k,
    {
        let call: &ToolCall = calls[k];
        assert(views[k as int] == call@);
        if call.mutating {
            ids.insert(call.id.as_str());
        }
        proof {
            assert forall|id: Seq<char>|
                ids@.contains(id) <==> mutation_ids_among(views, k + 1).contains(id) by {
                if mutation_ids_among(views, k as int).contains(id) {
                    let j = choose|j: int|
                        0 <= j < k && (#[trigger] views[j]).id == id && views[j].mutating;
                    assert(views[j].id == id);
                }
                if mutation_ids_among(views, k + 1).contains(id) {
                    let j = choose|j: int|
                        0 <= j < k + 1 && (#[trigger] views[j]).id == id && views[j].mutating;
                    if j < k {
                        assert(mutation_ids_among(views, k as int).contains(id));
                    }
                }
                if call.mutating && id == call.id@ {
                    assert(views[k as int].id == id);
                }
            }
            assert(ids@ =~= mutation_ids_among(views, k + 1));
        }
        k += 1;
    }
    ids
}

impl PlanExecute {
    /// What holds of a router at all times.
    pub closed spec fn wf(self) -> bool {
        &&& self.sessions.wf()
        &&& sound(self@)
    }

    /// A router keeps a bounded number of sessions, and each of them within
    /// its limits.
    pub proof fn law_sound(self)
        requires
            self.wf(),
        ensures
            sound(self@),
    {
    }

    /// Creates a plan/execute router.
    ///
    /// Returns an error when the planning prompt is empty, or when
    /// checkpoints are enabled without a prompt or without room for one.
    pub fn new(capable: ModelId, efficient: ModelId, config: PlanExecuteConfig) -> (result: Result<
        PlanExecute,
        LibsyError,
    >)
        ensures
            match config_fault(config) {
                Some(message) => result matches Err(error) && error.says(message),
                None => result matches Ok(router) && router.wf() && router@ == (PlanExecuteView {
                    capable: capable@,
                    efficient: efficient@,
                    planning_prompt: config.planning_prompt@,
                    checkpoint_prompt: config.checkpoint_prompt@,
                    limits: CheckpointLimits {
                        interval_turns: config.checkpoint_interval_turns,
                        max_checkpoints: config.max_checkpoints,
                        max_turns: config.max_checkpoint_turns,
                        max_turns_total: config.max_checkpoint_turns_total,
                    },
                    sessions: Map::empty(),
                }),
            },
    {
        if is_blank(config.planning_prompt.as_str()) {
            return Err(algorithm_error("planning_prompt must not be empty".to_string()));
        }
        if config.checkpoint_interval_turns > 0 && is_blank(config.checkpoint_prompt.as_str()) {
            return Err(
                algorithm_error(
                    "checkpoint_prompt must not be empty when checkpoints are enabled".to_string(),
                ),
            );
        }
        if config.checkpoint_interval_turns > 0 && (config.max_checkpoints == 0
            || config.max_checkpoint_turns == 0 || config.max_checkpoint_turns_total == 0) {
            return Err(
                algorithm_error(
                    "checkpoint limits must be at least 1 when checkpoints are enabled".to_string(),
                ),
            );
        }
        Ok(
            PlanExecute {
                capable,
                efficient,
                planning_prompt: config.planning_prompt,
                checkpoint_prompt: config.checkpoint_prompt,
                limits: CheckpointLimits {
                    interval_turns: config.checkpoint_interval_turns,
                    max_checkpoints: config.max_checkpoints,
                    max_turns: config.max_checkpoint_turns,
                    max_turns_total: config.max_checkpoint_turns_total,
                },
                sessions: SessionTable::new(),
            },
        )
    }

    /// Chooses the next phase and advances its bounded per-session counters.
    pub fn phase(&mut self, request: &Request, signals: ToolSignals) -> (phase: Phase)
        requires
            old(self).wf(),
        ensures
            final(self).wf(),
            phase_step(old(self)@, request@, signals.mutation_seen(), final(self)@, phase),
    {
        let ghost before = self@;
        let mutation_seen = signals.edit_count > 0 || signals.write_count > 0;
        let mutations = mutation_call_ids(request);
        let identity = match &request.identity {
            Some(identity) => identity,
            None => {
                return if mutation_seen {
                    Phase::Execute
                } else {
                    Phase::Plan
                };
            },
        };
        if request.is_final() {
            let was_executing = self.sessions.remove(identity).is_some();
            proof {
                lemma_sound_remove(before, identity@);
            }
            return if mutation_seen || was_executing {
                Phase::Execute
            } else {
                Phase::Plan
            };
        }
        let executing = self.sessions.contains(identity);
        if !executing {
            if !mutation_seen {
                return Phase::Plan;
            }
            if self.sessions.len() >= MAX_EXECUTING_SESSIONS {
                let evicted = self.sessions.evict();
                proof {
                    lemma_sound_remove(before, evicted@);
                }
            }
        }
        let ghost admitted = self@;
        let mut state = match self.sessions.remove(identity) {
            Some(state) => state,
            None => ExecutionState {
                efficient_turns: 0,
                checkpoints: 0,
                checkpoint_turns: None,
                checkpoint_turns_total: 0,
                checkpoint_known_mutations: IdSet::new(),
            },
        };
        let phase = advance_state(&mut state, self.limits, mutations);
        self.sessions.insert(identity.clone(), state);
        proof {
            assert(self@.sessions =~= admitted.sessions.insert(identity@, state@));
            lemma_sound_insert(admitted, identity@, state@);
        }
        phase
    }

    /// Hands execution of the request's session back to the efficient model.
    pub fn finish_checkpoint(&mut self, request: &Request)
        requires
            old(self).wf(),
        ensures
            final(self).wf(),
            final(self)@ == checkpoint_finished(old(self)@, request@),
    {
        let ghost before = self@;
        if let Some(identity) = &request.identity {
            if let Some(state) = self.sessions.remove(identity) {
                let mut state = state;
                hand_back(&mut state);
                self.sessions.insert(identity.clone(), state);
                proof {
                    assert(self@.sessions =~= before.sessions.insert(identity@, state@));
                    lemma_sound_insert(before, identity@, state@);
                }
            } else {
                assert(self@.sessions =~= before.sessions);
            }
        }
    }

    /// The router's name.
    pub fn name(&self) -> (name: &'static str)
        ensures
            name@ == "plan_execute"@,
    {
        "plan_execute"
    }

    /// The model that plans.
    pub fn capable(&self) -> (model: &ModelId)
        ensures
            model@ == self@.capable,
    {
        &self.capable
    }

    /// Decides a turn: who takes it, and with which request. The planner's
    /// request begins with the planning prompt; the executor's is the
    /// caller's own.
    pub fn route(&mut self, request: Request, signals: ToolSignals) -> (step: RouteStep)
        requires
            old(self).wf(),
        ensures
            final(self).wf(),
            phase_step(
                old(self)@,
                request@,
                signals.mutation_seen(),
                final(self)@,
                step.phase(),
            ),
            match step {
                RouteStep::Execute(outcome) => routes_to(outcome, old(self)@.efficient, request@),
                RouteStep::Plan(outcome) => routes_to(
                    outcome,
                    old(self)@.capable,
                    planning_request(request@, old(self)@.planning_prompt),
                ),
                RouteStep::Checkpoint { request: inspected, .. } => inspected == request,
            },
    {
        match self.phase(&request, signals) {
            Phase::Execute => RouteStep::Execute(
                RoutingOutcome::RouteTo {
                    target: self.efficient.clone(),
                    fallbacks: Vec::new(),
                    request,
                },
            ),
            Phase::Checkpoint { force_handoff } => RouteStep::Checkpoint { request, force_handoff },
            Phase::Plan => {
                let mut request = request;
                prepend_system_prompt(&mut request, self.planning_prompt.as_str());
                RouteStep::Plan(
                    RoutingOutcome::RouteTo {
                        target: self.capable.clone(),
                        fallbacks: Vec::new(),
                        request,
                    },
                )
            },
        }
    }

    /// The request with which the capable model inspects the execution: the
    /// shortened conversation, behind the planning prompt as in planning and
    /// with the checkpoint prompt at its end, to be answered as a stream.
    /// Where the turns are used up it may call no tools. `verdicts[i]` is
    /// what the tool signals say of the call in item `i` of the preserved
    /// OpenAI Responses conversation.
    pub fn checkpoint_request(
        &self,
        request: &Request,
        verdicts: &Vec<bool>,
        force_handoff: bool,
    ) -> (inspected: Request)
        ensures
            inspected@ == inspection_request(self@, request@, force_handoff),
    {
        let mut inspected = compact_execution_context(request, verdicts);
        inspected.llm_request.stream = true;
        prepend_system_prompt(&mut inspected, self.planning_prompt.as_str());
        append_note(&mut inspected, self.checkpoint_prompt.as_str());
        if force_handoff {
            inspected.llm_request.tool_choice = Some(ToolChoice::Forbidden);
        }
        inspected
    }

    /// Decides a checkpoint on the capable model's answer. An edit, or any
    /// tool call before the turns are used up, goes to the client as the
    /// answer. Otherwise execution goes back to the efficient model, with
    /// the planner's note.
    pub fn settle_checkpoint(
        &mut self,
        request: Request,
        checkpoint_request: Request,
        aggregate: AggLlmResponse,
        metadata: Option<Metadata>,
        force_handoff: bool,
    ) -> (outcome: RoutingOutcome)
        requires
            old(self).wf(),
        ensures
            final(self).wf(),
            if answers_checkpoint(aggregate, force_handoff) {
                &&& final(self)@ == old(self)@
                &&& outcome matches RoutingOutcome::Answered {
                    model,
                    request: answered,
                    response,
                } && model@ == old(self)@.capable && answered == checkpoint_request && response
                    == (Response {
                    llm_response: if request@.stream {
                        LlmResponse::AggStream(aggregate)
                    } else {
                        LlmResponse::Agg(aggregate)
                    },
                    metadata,
                })
            } else {
                &&& final(self)@ == checkpoint_finished(old(self)@, request@)
                &&& routes_to(
                    outcome,
                    old(self)@.efficient,
                    with_note(
                        request@,
                        handoff_note(
                            planning_note(aggregate),
                            force_handoff && calls_tools(aggregate),
                        ),
                    ),
                )
            },
    {
        let mut request = request;
        let has_mutations = !mutating_calls(&aggregate).is_empty();
        let has_tools = has_tool_call(&aggregate);
        if has_mutations || has_tools && !force_handoff {
            let llm_response = if request.llm_request.stream {
                LlmResponse::AggStream(aggregate)
            } else {
                LlmResponse::Agg(aggregate)
            };
            return RoutingOutcome::Answered {
                model: self.capable.clone(),
                request: checkpoint_request,
                response: Response { llm_response, metadata },
            };
        }
        let handoff = checkpoint_handoff(&aggregate, force_handoff && has_tools);
        self.finish_checkpoint(&request);
        append_note_preserving_responses(&mut request, handoff.as_str());
        RoutingOutcome::RouteTo { target: self.efficient.clone(), fallbacks: Vec::new(), request }
    }
}

/// A decided turn.
#[derive(Debug)]
pub enum RouteStep {
    /// The efficient model takes the turn.
    Execute(RoutingOutcome),
    /// The capable model takes the turn and plans.
    Plan(RoutingOutcome),
    /// The capable model is to inspect the execution first.
    Checkpoint { request: Request, force_handoff: bool },
}

impl RouteStep {
    /// The phase that the step belongs to.
    pub open spec fn phase(self) -> Phase {
        match self {
            RouteStep::Execute(_) => Phase::Execute,
            RouteStep::Plan(_) => Phase::Plan,
            RouteStep::Checkpoint { force_handoff, .. } => Phase::Checkpoint { force_handoff },
        }
    }
}

/// Whether the outcome sends this request to this model, without fallbacks.
pub open spec fn routes_to(outcome: RoutingOutcome, model: Seq<char>, request: RequestView) -> bool {
    outcome matches RoutingOutcome::RouteTo { target, fallbacks, request: routed } && target@
        == model && fallbacks@.len() == 0 && routed@ == request
}

/// The calls of a response that edit or write files, in order.
pub open spec fn response_mutations(response: AggLlmResponse) -> Seq<CallView> {
    calls_of(response_blocks(response)).filter(mutating_call())
}

/// The calls of a response that edit or write files, in order.
pub fn mutating_calls(response: &AggLlmResponse) -> (mutations: Vec<&ToolCall>)
    ensures
        calls_view(mutations@) == response_mutations(*response),
{
    let blocks = output_blocks(response);
    let calls = block_calls(&blocks);
    let ghost views = calls_of(response_blocks(*response));
    let mut mutations: Vec<&ToolCall> = Vec::new();
    let mut k: usize = 0;
    assert(calls_view(mutations@) =~= views.take(0).filter(mutating_call())) by {
        reveal(Seq::filter);
    }
    while k < calls.len()
        invariant
            k <= calls@.len(),
            views == calls_view(calls@),
            calls_view(mutations@) == views.take(k as int).filter(mutating_call()),
        decreases calls@.len() - k,
    {
        let call: &ToolCall = calls[k];
        assert(views[k as int] == call@);
        proof {
            assert(views.take(k + 1) =~= views.take(k as int).push(call@));
            views.take(k as int).lemma_filter_push(call@, mutating_call());
        }
        if call.mutating {
            let ghost before = mutations@;
            mutations.push(call);
            assert(calls_view(mutations@) =~= calls_view(before).push(call@));
        }
        k += 1;
    }
    assert(views.take(k as int) =~= views);
    mutations
}

/// Whether the capable model's answer to a checkpoint goes to the client.
pub open spec fn answers_checkpoint(response: AggLlmResponse, force_handoff: bool) -> bool {
    response_mutations(response).len() > 0 || (calls_tools(response) && !force_handoff)
}

/// The visible text of a checkpoint's answer.
pub open spec fn planning_note(response: AggLlmResponse) -> Seq<char> {
    joined(response_blocks(response).filter_map(as_text()))
}

/// The note with which a checkpoint hands execution back.
pub open spec fn handoff_note(visible: Seq<char>, blocked_by_budget: bool) -> Seq<char> {
    if blocked_by_budget {
        "The bounded planning checkpoint ended before its requested tools ran. Continue implementation using the evidence already available.\n\nLatest planning note:\n"@
            + if visible.len() == 0 {
            "No additional explanation was provided."@
        } else {
            visible
        }
    } else {
        "A planning checkpoint inspected the current environment. Continue implementation using its latest assessment.\n\nUpdated planning note:\n"@
            + if visible.len() == 0 {
            "The existing direction remains appropriate."@
        } else {
            visible
        }
    }
}

/// The note with which a checkpoint hands execution back.
pub fn checkpoint_handoff(response: &AggLlmResponse, blocked_by_budget: bool) -> (note: String)
    ensures
        note@ == handoff_note(planning_note(*response), blocked_by_budget),
{
    let blocks = output_blocks(response);
    let texts = block_texts(&blocks);
    let visible = join_lines(&texts);
    let empty = visible.as_str().is_empty();
    if blocked_by_budget {
        let mut note = "The bounded planning checkpoint ended before its requested tools ran. Continue implementation using the evidence already available.\n\nLatest planning note:\n".to_string();
        if empty {
            note.append("No additional explanation was provided.");
        } else {
            note.append(visible.as_str());
        }
        return note;
    }
    let mut note = "A planning checkpoint inspected the current environment. Continue implementation using its latest assessment.\n\nUpdated planning note:\n".to_string();
    if empty {
        note.append("The existing direction remains appropriate.");
    } else {
        note.append(visible.as_str());
    }
    note
}

/// The request with its conversation shortened, in its messages and in the
/// preserved OpenAI Responses body.
pub open spec fn shortened_request(request: RequestView, verdicts: Seq<bool>) -> RequestView {
    let short = RequestView { messages: compacted(request.messages), ..request };
    match request.responses_input() {
        Some(items) => short.with_responses_input(unjudged(raw_compacted(judged(items, verdicts)))),
        None => short,
    }
}

/// The request with its conversation shortened, in its messages and in the
/// preserved OpenAI Responses body. `verdicts[i]` is what the tool signals
/// say of the call in the body's item `i`.
pub fn compact_execution_context(base: &Request, verdicts: &Vec<bool>) -> (short: Request)
    ensures
        short@ == shortened_request(base@, verdicts@),
{
    let mut request = base.clone();
    request.llm_request.messages = compact_messages(base.llm_request.messages.as_slice());
    assert(request@ == (RequestView { messages: compacted(base@.messages), ..base@ }));
    if let Some(input) = exact_responses_input_mut(&mut request) {
        *input = compact_responses_input(input.as_slice(), verdicts);
    }
    request
}

/// A planner's request: the prompt stands before its instructions, and no
/// preserved body stays.
pub open spec fn planning_request(request: RequestView, prompt: Seq<char>) -> RequestView {
    RequestView {
        instructions: prompted(request.instructions, prompt),
        requests: no_bodies(),
        ..request
    }
}

/// The request with which the capable model inspects the execution.
pub open spec fn inspection_request(
    router: PlanExecuteView,
    request: RequestView,
    force_handoff: bool,
) -> RequestView {
    RequestView {
        messages: noted_messages(compacted(request.messages), router.checkpoint_prompt),
        stream: true,
        tool_choice: if force_handoff {
            Some(ToolChoiceView::Forbidden)
        } else {
            request.tool_choice
        },
        ..planning_request(request, router.planning_prompt)
    }
}

/// The limits leave room for a checkpoint where checkpoints are enabled, the
/// router keeps a bounded number of sessions, and each is within its limits.
pub open spec fn sound(router: PlanExecuteView) -> bool {
    &&& router.limits.wf()
    &&& router.sessions.dom().finite()
    &&& router.sessions.len() <= MAX_EXECUTING_SESSIONS
    &&& forall|id: Seq<char>| #[trigger]
        router.sessions.contains_key(id) ==> within_limits(router.limits, router.sessions[id])
}

/// The session has opened no more checkpoints and taken no more checkpoint
/// turns, in the open checkpoint and in all, than it may.
pub open spec fn within_budget(limits: CheckpointLimits, state: ExecutionView) -> bool {
    &&& state.checkpoints <= limits.max_checkpoints
    &&& state.checkpoint_turns_total <= limits.max_turns_total
    &&& state.checkpoint_turns matches Some(turns) ==> 1 <= turns <= limits.max_turns
}

/// The session is within its budget, and has no open checkpoint where
/// checkpoints are disabled.
pub open spec fn within_limits(limits: CheckpointLimits, state: ExecutionView) -> bool {
    &&& within_budget(limits, state)
    &&& limits.interval_turns == 0 ==> state.checkpoint_turns is None
}

proof fn lemma_sound_remove(router: PlanExecuteView, id: Seq<char>)
    requires
        sound(router),
    ensures
        sound(PlanExecuteView { sessions: router.sessions.remove(id), ..router }),
        router.sessions.contains_key(id) ==> router.sessions.remove(id).len()
            == router.sessions.len() - 1,
{
    vstd::set::axiom_set_remove_finite(router.sessions.dom(), id);
}

proof fn lemma_sound_insert(router: PlanExecuteView, id: Seq<char>, state: ExecutionView)
    requires
        sound(router),
        router.sessions.contains_key(id) || router.sessions.len() < MAX_EXECUTING_SESSIONS,
        within_limits(router.limits, state),
    ensures
        sound(PlanExecuteView { sessions: router.sessions.insert(id, state), ..router }),
{
}

/// Which sessions have begun to execute.
pub struct ExecutionTracker {
    sessions: SessionTable<()>,
}

impl View for ExecutionTracker {
    type V = Set<Seq<char>>;

    closed spec fn view(&self) -> Set<Seq<char>> {
        self.sessions@.dom()
    }
}

/// Whether the request is one of execution: a file was edited or written, in
/// its own conversation or earlier in its session.
pub open spec fn is_latched(
    sessions: Set<Seq<char>>,
    request: RequestView,
    mutation_seen: bool,
) -> bool {
    mutation_seen || (request.identity matches Some(id) && sessions.contains(id))
}

/// Whether the tracker may go from `before` to `after` on this request, with
/// this answer. Which session leaves a full tracker is left open.
pub open spec fn latch_step(
    before: Set<Seq<char>>,
    request: RequestView,
    mutation_seen: bool,
    after: Set<Seq<char>>,
    executing: bool,
) -> bool {
    &&& executing == is_latched(before, request, mutation_seen)
    &&& match request.identity {
        None => after == before,
        Some(id) => if request.is_final() {
            after == before.remove(id)
        } else if !mutation_seen || before.contains(id) {
            after == before
        } else if before.len() < MAX_EXECUTING_SESSIONS {
            after == before.insert(id)
        } else {
            exists|evicted: Seq<char>| #[trigger]
                before.contains(evicted) && after == before.remove(evicted).insert(id)
        },
    }
}

impl ExecutionTracker {
    /// The tracker is sound and within its bound.
    pub closed spec fn wf(self) -> bool {
        self.sessions.wf() && self@.finite() && self@.len() <= MAX_EXECUTING_SESSIONS
    }

    /// A tracker without sessions.
    pub fn new() -> (tracker: ExecutionTracker)
        ensures
            tracker.wf(),
            tracker@ == Set::<Seq<char>>::empty(),
    {
        let tracker = ExecutionTracker { sessions: SessionTable::new() };
        assert(tracker@ =~= Set::<Seq<char>>::empty());
        tracker
    }

    /// Whether the request is one of execution: a file was edited or written,
    /// in its own conversation or earlier in its session. The last request of
    /// a session releases the session.
    pub fn is_executing(&mut self, request: &Request, signals: ToolSignals) -> (executing: bool)
        requires
            old(self).wf(),
        ensures
            final(self).wf(),
            latch_step(old(self)@, request@, signals.mutation_seen(), final(self)@, executing),
    {
        let ghost before = self@;
        let mutation_seen = signals.edit_count > 0 || signals.write_count > 0;
        let identity = match &request.identity {
            Some(identity) => identity,
            None => {
                return mutation_seen;
            },
        };
        if request.is_final() {
            let was_executing = self.sessions.remove(identity).is_some();
            assert(self@ =~= before.remove(identity@));
            return mutation_seen || was_executing;
        }
        if self.sessions.contains(identity) {
            return true;
        }
        if mutation_seen {
            if self.sessions.len() >= MAX_EXECUTING_SESSIONS {
                let evicted = self.sessions.evict();
                assert(self@ =~= before.remove(evicted@));
            }
            let ghost admitted = self@;
            self.sessions.insert(identity.clone(), ());
            assert(self@ =~= admitted.insert(identity@));
        }
        mutation_seen
    }
}

} // verus!
