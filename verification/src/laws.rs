//! What holds of the routers across requests.

use crate::blocks::blocks_of;
use crate::compaction_laws::lemma_blocks_push;
use crate::json::Json;
use crate::plan_execute::{
    advance, checkpoint_finished, fresh, handed_back, is_latched, latch_step, phase_step,
    planning_request, sound, turns_used_up, within_budget, CheckpointLimits, ExecutionView, Phase,
    PlanExecuteView, MAX_EXECUTING_SESSIONS,
};
use crate::plan_execute_finalize::{
    begins_with, context_of, control_taken, finalizer_request, in_final_control, known_prefix,
    prefix_kept, released, restored, FinalizeView, PrefixView, MAX_SESSION_STATE,
};
use crate::protocol::{
    text_message, AggLlmResponse, BlockView, LlmResponse, LlmResponseStreamEvent, MessageView,
    RequestView, Role,
};
use crate::replay::{
    has_prompt, prompted, prompted_text, user_text_item, with_note, with_prompt,
};
use crate::turn::{
    calls_tools, event_body, last_body, output_uses_tools, stream_events, stream_failure,
    uses_tools, GatedTurn, StreamItem,
};
use vstd::prelude::*;

verus! {

/// A request is one of planning exactly where no file was edited or written,
/// in its own conversation or earlier in its session.
pub proof fn law_planning_until_the_first_edit(
    before: PlanExecuteView,
    request: RequestView,
    mutation_seen: bool,
    after: PlanExecuteView,
    phase: Phase,
)
    requires
        phase_step(before, request, mutation_seen, after, phase),
    ensures
        phase == Phase::Plan <==> !is_latched(before.sessions.dom(), request, mutation_seen),
{
}

/// One step of a plan/execute router, whichever session it is for.
pub enum RouterStep {
    /// A request is given its phase.
    Turn { request: RequestView, mutation_seen: bool, phase: Phase, after: PlanExecuteView },
    /// Execution is handed back after a checkpoint.
    HandBack { request: RequestView, after: PlanExecuteView },
}

impl RouterStep {
    /// The router after the step.
    pub open spec fn after(self) -> PlanExecuteView {
        match self {
            RouterStep::Turn { after, .. } => after,
            RouterStep::HandBack { after, .. } => after,
        }
    }

    /// Whether the router may take this step.
    pub open spec fn follows(self, before: PlanExecuteView) -> bool {
        match self {
            RouterStep::Turn { request, mutation_seen, phase, after } => phase_step(
                before,
                request,
                mutation_seen,
                after,
                phase,
            ),
            RouterStep::HandBack { request, after } => after == checkpoint_finished(
                before,
                request,
            ),
        }
    }

    /// Whether the step is a request of the session.
    pub open spec fn is_turn_of(self, id: Seq<char>) -> bool {
        self matches RouterStep::Turn { request, .. } && request.identity == Some(id)
    }

    /// Whether the step is the last request of the session.
    pub open spec fn is_last_of(self, id: Seq<char>) -> bool {
        self.is_turn_of(id) && self->Turn_request.is_final()
    }

    /// Whether another session's first edit takes the session out of a full
    /// router.
    pub open spec fn evicts(self, before: PlanExecuteView, id: Seq<char>) -> bool {
        &&& self matches RouterStep::Turn { request, mutation_seen, .. }
        &&& request.identity matches Some(own)
        &&& own != id
        &&& mutation_seen
        &&& !request.is_final()
        &&& !before.sessions.contains_key(own)
        &&& before.sessions.len() >= MAX_EXECUTING_SESSIONS
        &&& !self.after().sessions.contains_key(id)
    }
}

/// The router before step `k`.
pub open spec fn router_at(start: PlanExecuteView, steps: Seq<RouterStep>, k: int) -> PlanExecuteView {
    if k == 0 {
        start
    } else {
        steps[k - 1].after()
    }
}

/// Whether the router may take these steps in turn.
pub open spec fn router_history(start: PlanExecuteView, steps: Seq<RouterStep>) -> bool {
    forall|k: int|
        0 <= k < steps.len() ==> (#[trigger] steps[k]).follows(router_at(start, steps, k))
}

proof fn lemma_keeps_executing(
    start: PlanExecuteView,
    steps: Seq<RouterStep>,
    id: Seq<char>,
    from: int,
    k: int,
)
    requires
        router_history(start, steps),
        0 <= from <= k <= steps.len(),
        router_at(start, steps, from).sessions.contains_key(id),
        forall|j: int|
            from <= j < k ==> !(#[trigger] steps[j]).is_last_of(id) && !steps[j].evicts(
                router_at(start, steps, j),
                id,
            ),
    ensures
        router_at(start, steps, k).sessions.contains_key(id),
    decreases k - from,
{
    if from < k {
        lemma_keeps_executing(start, steps, id, from, k - 1);
        let step = steps[k - 1];
        let before = router_at(start, steps, k - 1);
        assert(step.follows(before));
        assert(!step.is_last_of(id) && !step.evicts(before, id));
    }
}

proof fn lemma_stays_out(
    start: PlanExecuteView,
    steps: Seq<RouterStep>,
    id: Seq<char>,
    from: int,
    k: int,
)
    requires
        router_history(start, steps),
        0 <= from <= k <= steps.len(),
        !router_at(start, steps, from).sessions.contains_key(id),
        forall|j: int|
            from <= j < k && (#[trigger] steps[j]).is_turn_of(id)
                ==> !steps[j]->Turn_mutation_seen,
    ensures
        !router_at(start, steps, k).sessions.contains_key(id),
    decreases k - from,
{
    if from < k {
        lemma_stays_out(start, steps, id, from, k - 1);
        let step = steps[k - 1];
        assert(step.follows(router_at(start, steps, k - 1)));
        assert(step.is_turn_of(id) ==> !step->Turn_mutation_seen);
    }
}

/// Once a session executes, it keeps executing, however many requests of its
/// own and of other sessions follow and whatever its conversation still
/// holds, until its last request: no request of it is one of planning. A full
/// router may have to forget it for another session.
pub proof fn law_execution_latches(
    start: PlanExecuteView,
    steps: Seq<RouterStep>,
    id: Seq<char>,
    first: int,
    k: int,
)
    requires
        router_history(start, steps),
        0 <= first < k < steps.len(),
        steps[first].is_turn_of(id),
        steps[first]->Turn_phase != Phase::Plan,
        steps[k].is_turn_of(id),
        forall|j: int| first <= j < k ==> !(#[trigger] steps[j]).is_last_of(id),
        forall|j: int|
            first < j < k ==> !(#[trigger] steps[j]).evicts(router_at(start, steps, j), id),
    ensures
        steps[k]->Turn_phase != Phase::Plan,
{
    assert(steps[first].follows(router_at(start, steps, first)));
    assert(!steps[first].is_last_of(id));
    assert(router_at(start, steps, first + 1) == steps[first].after());
    lemma_keeps_executing(start, steps, id, first + 1, k);
    assert(steps[k].follows(router_at(start, steps, k)));
}

/// The last request of a session releases the session: whatever other
/// sessions do, it is one of planning again until the next edit.
pub proof fn law_final_request_releases(
    start: PlanExecuteView,
    steps: Seq<RouterStep>,
    id: Seq<char>,
    last: int,
    k: int,
)
    requires
        router_history(start, steps),
        0 <= last < k < steps.len(),
        steps[last].is_last_of(id),
        steps[k].is_turn_of(id),
        forall|j: int|
            last < j <= k && (#[trigger] steps[j]).is_turn_of(id) ==> !steps[j]->Turn_mutation_seen,
    ensures
        steps[k]->Turn_phase == Phase::Plan,
{
    assert(steps[last].follows(router_at(start, steps, last)));
    assert(router_at(start, steps, last + 1) == steps[last].after());
    lemma_stays_out(start, steps, id, last + 1, k);
    assert(steps[k].follows(router_at(start, steps, k)));
}

/// A request changes no session but its own, unless it makes its session
/// execute where the router has no room.
pub proof fn law_sessions_are_apart(
    before: PlanExecuteView,
    request: RequestView,
    mutation_seen: bool,
    after: PlanExecuteView,
    phase: Phase,
    other: Seq<char>,
)
    requires
        phase_step(before, request, mutation_seen, after, phase),
        before.sessions.len() < MAX_EXECUTING_SESSIONS || request.is_final() || !mutation_seen || (
        request.identity matches Some(id) ==> before.sessions.contains_key(id)),
        request.identity != Some(other),
    ensures
        after.sessions.contains_key(other) == before.sessions.contains_key(other),
        before.sessions.contains_key(other) ==> after.sessions[other] == before.sessions[other],
{
}

/// With an interval of zero no request is a checkpoint.
pub proof fn law_zero_disables_checkpoints(
    before: PlanExecuteView,
    request: RequestView,
    mutation_seen: bool,
    after: PlanExecuteView,
    phase: Phase,
)
    requires
        sound(before),
        before.limits.interval_turns == 0,
        phase_step(before, request, mutation_seen, after, phase),
    ensures
        !(phase is Checkpoint),
{
}

/// The session after a number of turns, each with the edits that its
/// conversation holds.
pub open spec fn after_turns(
    limits: CheckpointLimits,
    state: ExecutionView,
    turns: Seq<Set<Seq<char>>>,
) -> ExecutionView
    decreases turns.len(),
{
    if turns.len() == 0 {
        state
    } else {
        advance(limits, after_turns(limits, state, turns.drop_last()), turns.last()).0
    }
}

/// The phase of turn `k`.
pub open spec fn phase_of_turn(
    limits: CheckpointLimits,
    state: ExecutionView,
    turns: Seq<Set<Seq<char>>>,
    k: int,
) -> Phase {
    advance(limits, after_turns(limits, state, turns.take(k)), turns[k]).1
}

proof fn lemma_executing(
    limits: CheckpointLimits,
    state: ExecutionView,
    turns: Seq<Set<Seq<char>>>,
)
    requires
        state.checkpoint_turns is None,
        state.efficient_turns + turns.len() <= limits.interval_turns,
    ensures
        after_turns(limits, state, turns) == (ExecutionView {
            efficient_turns: (state.efficient_turns + turns.len()) as u32,
            ..state
        }),
    decreases turns.len(),
{
    if turns.len() > 0 {
        lemma_executing(limits, state, turns.drop_last());
    }
}

/// Between two checkpoints the efficient model takes as many turns as the
/// interval says: as long as it has taken fewer it takes the next one, and
/// the turn after that is a checkpoint where the session may still open one.
pub proof fn law_interval_between_checkpoints(
    limits: CheckpointLimits,
    state: ExecutionView,
    turns: Seq<Set<Seq<char>>>,
)
    requires
        limits.interval_turns > 0,
        state.checkpoint_turns is None,
        state.checkpoints < limits.max_checkpoints,
        state.checkpoint_turns_total < limits.max_turns_total,
        state.efficient_turns + turns.len() == limits.interval_turns + 1,
    ensures
        forall|k: int|
            0 <= k < turns.len() - 1 ==> #[trigger] phase_of_turn(limits, state, turns, k)
                == Phase::Execute,
        turns.len() > 0 ==> phase_of_turn(limits, state, turns, turns.len() - 1) is Checkpoint,
{
    assert forall|k: int| 0 <= k < turns.len() - 1 implies #[trigger] phase_of_turn(
        limits,
        state,
        turns,
        k,
    ) == Phase::Execute by {
        lemma_executing(limits, state, turns.take(k));
    }
    if turns.len() > 0 {
        lemma_executing(limits, state, turns.take(turns.len() - 1));
    }
}

/// A checkpoint turn is forced to hand back exactly where it uses up the
/// turns, and no turn takes a session over its budget, of checkpoints, of
/// turns in one checkpoint and of checkpoint turns in all.
pub proof fn law_budget_is_kept(
    limits: CheckpointLimits,
    state: ExecutionView,
    mutations: Set<Seq<char>>,
)
    requires
        limits.wf(),
        within_budget(limits, state),
    ensures
        within_budget(limits, advance(limits, state, mutations).0),
        turns_used_up(limits, advance(limits, state, mutations).0) <==> advance(
            limits,
            state,
            mutations,
        ).1 == (Phase::Checkpoint { force_handoff: true }),
        within_budget(limits, handed_back(advance(limits, state, mutations).0)),
{
}

/// A new session is within its budget.
pub proof fn law_budget_starts_unused(limits: CheckpointLimits)
    ensures
        within_budget(limits, fresh()),
        !turns_used_up(limits, fresh()),
{
}

/// A turn of a session: the edits that its conversation holds, and whether
/// execution is handed back at its end.
pub struct SessionTurn {
    pub mutations: Set<Seq<char>>,
    pub hands_back: bool,
}

/// The session after these turns.
pub open spec fn after_session(limits: CheckpointLimits, turns: Seq<SessionTurn>) -> ExecutionView
    decreases turns.len(),
{
    if turns.len() == 0 {
        fresh()
    } else {
        let (next, phase) = advance(
            limits,
            after_session(limits, turns.drop_last()),
            turns.last().mutations,
        );
        if phase is Checkpoint && turns.last().hands_back {
            handed_back(next)
        } else {
            next
        }
    }
}

/// However long a session goes on, it opens no more checkpoints and takes no
/// more checkpoint turns, in one checkpoint and in all, than its limits say.
pub proof fn law_session_stays_within_budget(limits: CheckpointLimits, turns: Seq<SessionTurn>)
    requires
        limits.wf(),
    ensures
        within_budget(limits, after_session(limits, turns)),
    decreases turns.len(),
{
    if turns.len() > 0 {
        let rest = turns.drop_last();
        law_session_stays_within_budget(limits, rest);
        law_budget_is_kept(limits, after_session(limits, rest), turns.last().mutations);
    }
}

/// Once the turns are used up, the next turn ends the checkpoint: the
/// efficient model takes it, whatever became of the forced turn.
pub proof fn law_used_up_turns_hand_back(
    limits: CheckpointLimits,
    state: ExecutionView,
    mutations: Set<Seq<char>>,
)
    requires
        turns_used_up(limits, state),
    ensures
        advance(limits, state, mutations) == (handed_back(state), Phase::Execute),
{
}

/// Once all checkpoint turns of a session are used up, none of its turns is a
/// checkpoint, however long it goes on.
pub proof fn law_total_cap_disables_later_checkpoints(
    limits: CheckpointLimits,
    state: ExecutionView,
    turns: Seq<Set<Seq<char>>>,
    k: int,
)
    requires
        state.checkpoint_turns_total >= limits.max_turns_total,
        0 <= k < turns.len(),
    ensures
        phase_of_turn(limits, state, turns, k) == Phase::Execute,
{
    lemma_capped(limits, state, turns.take(k));
}

proof fn lemma_capped(limits: CheckpointLimits, state: ExecutionView, turns: Seq<Set<Seq<char>>>)
    requires
        state.checkpoint_turns_total >= limits.max_turns_total,
    ensures
        after_turns(limits, state, turns).checkpoint_turns_total == state.checkpoint_turns_total,
    decreases turns.len(),
{
    if turns.len() > 0 {
        lemma_capped(limits, state, turns.drop_last());
    }
}

/// An edit that shows up in the conversation during a checkpoint ends the
/// checkpoint: the efficient model takes the turn.
pub proof fn law_new_edit_ends_the_checkpoint(
    limits: CheckpointLimits,
    state: ExecutionView,
    mutations: Set<Seq<char>>,
    edit: Seq<char>,
)
    requires
        state.checkpoint_turns is Some,
        mutations.contains(edit),
        !state.known.contains(edit),
    ensures
        advance(limits, state, mutations) == (handed_back(state), Phase::Execute),
{
}

/// The edits that were known when a checkpoint was opened do not end it, where
/// it has turns left.
pub proof fn law_known_edits_keep_the_checkpoint(
    limits: CheckpointLimits,
    state: ExecutionView,
    known: Set<Seq<char>>,
    mutations: Set<Seq<char>>,
)
    requires
        state.checkpoint_turns is None,
        advance(limits, state, known).1 == (Phase::Checkpoint { force_handoff: false }),
        mutations.subset_of(known),
    ensures
        advance(limits, advance(limits, state, known).0, mutations).1 is Checkpoint,
{
}

/// One request as the tracker of executing sessions sees it.
pub struct TrackerStep {
    pub request: RequestView,
    pub mutation_seen: bool,
    pub executing: bool,
    pub after: Set<Seq<char>>,
}

impl TrackerStep {
    /// Whether the step is the last request of the session.
    pub open spec fn is_last_of(self, id: Seq<char>) -> bool {
        self.request.identity == Some(id) && self.request.is_final()
    }

    /// Whether another session's first edit takes the session out of a full
    /// tracker.
    pub open spec fn evicts(self, before: Set<Seq<char>>, id: Seq<char>) -> bool {
        &&& self.request.identity matches Some(own)
        &&& own != id
        &&& self.mutation_seen
        &&& !self.request.is_final()
        &&& !before.contains(own)
        &&& before.len() >= MAX_EXECUTING_SESSIONS
        &&& !self.after.contains(id)
    }
}

/// The tracker before step `k`.
pub open spec fn tracker_at(start: Set<Seq<char>>, steps: Seq<TrackerStep>, k: int) -> Set<Seq<char>> {
    if k == 0 {
        start
    } else {
        steps[k - 1].after
    }
}

/// Whether the tracker may take these steps in turn.
pub open spec fn tracker_history(start: Set<Seq<char>>, steps: Seq<TrackerStep>) -> bool {
    forall|k: int|
        0 <= k < steps.len() ==> latch_step(
            tracker_at(start, steps, k),
            (#[trigger] steps[k]).request,
            steps[k].mutation_seen,
            steps[k].after,
            steps[k].executing,
        )
}

proof fn lemma_stays_tracked(
    start: Set<Seq<char>>,
    steps: Seq<TrackerStep>,
    id: Seq<char>,
    from: int,
    k: int,
)
    requires
        tracker_history(start, steps),
        0 <= from <= k <= steps.len(),
        tracker_at(start, steps, from).contains(id),
        forall|j: int|
            from <= j < k ==> !(#[trigger] steps[j]).is_last_of(id) && !steps[j].evicts(
                tracker_at(start, steps, j),
                id,
            ),
    ensures
        tracker_at(start, steps, k).contains(id),
    decreases k - from,
{
    if from < k {
        lemma_stays_tracked(start, steps, id, from, k - 1);
        let step = steps[k - 1];
        assert(!step.is_last_of(id) && !step.evicts(tracker_at(start, steps, k - 1), id));
    }
}

/// The tracker of executing sessions latches as the router does, over any
/// requests of any sessions.
pub proof fn law_tracker_latches(
    start: Set<Seq<char>>,
    steps: Seq<TrackerStep>,
    id: Seq<char>,
    first: int,
    k: int,
)
    requires
        tracker_history(start, steps),
        0 <= first < k < steps.len(),
        steps[first].request.identity == Some(id),
        steps[first].executing,
        steps[k].request.identity == Some(id),
        forall|j: int| first <= j < k ==> !(#[trigger] steps[j]).is_last_of(id),
        forall|j: int|
            first < j < k ==> !(#[trigger] steps[j]).evicts(tracker_at(start, steps, j), id),
    ensures
        steps[k].executing,
{
    assert(!steps[first].is_last_of(id));
    assert(tracker_at(start, steps, first + 1) == steps[first].after);
    lemma_stays_tracked(start, steps, id, first + 1, k);
}

/// One step of a plan, execute and finalize router, whichever session it is
/// for.
pub enum ControlStep {
    /// A request is decided.
    Turn { request: RequestView, after: FinalizeView },
    /// The capable model takes final control of a session.
    Take { id: Seq<char>, after: FinalizeView },
    /// The context of a request is asked for.
    Context { request: RequestView, after: FinalizeView },
}

impl ControlStep {
    /// The router after the step.
    pub open spec fn after(self) -> FinalizeView {
        match self {
            ControlStep::Turn { after, .. } => after,
            ControlStep::Take { after, .. } => after,
            ControlStep::Context { after, .. } => after,
        }
    }

    /// Whether the router may take this step.
    pub open spec fn follows(self, before: FinalizeView) -> bool {
        match self {
            ControlStep::Turn { request, after } => if in_final_control(before, request) {
                prefix_kept(released(before, request), request, after)
            } else {
                after == FinalizeView { executing: after.executing, ..released(before, request) }
            },
            ControlStep::Take { id, after } => control_taken(before, id, after),
            ControlStep::Context { request, after } => prefix_kept(before, request, after),
        }
    }

    /// Whether the step is the last request of the session.
    pub open spec fn is_last_of(self, id: Seq<char>) -> bool {
        self matches ControlStep::Turn { request, .. } && request.identity == Some(id)
            && request.is_final()
    }

    /// Whether another session, as it comes under final control, takes the
    /// session's from a full router.
    pub open spec fn evicts(self, before: FinalizeView, id: Seq<char>) -> bool {
        &&& self matches ControlStep::Take { id: own, .. }
        &&& own != id
        &&& !before.finalizing.contains(own)
        &&& before.finalizing.len() >= MAX_SESSION_STATE
        &&& !self.after().finalizing.contains(id)
    }

    /// Whether the step takes the conversation that is kept for the session
    /// from a router that is full, of kept conversations or of sessions under
    /// final control.
    pub open spec fn drops_prefix(self, before: FinalizeView, id: Seq<char>) -> bool {
        &&& match self {
            ControlStep::Turn { request, .. } => in_final_control(before, request) && released(
                before,
                request,
            ).prefixes.len() >= MAX_SESSION_STATE,
            ControlStep::Take { .. } => before.finalizing.len() >= MAX_SESSION_STATE,
            ControlStep::Context { .. } => before.prefixes.len() >= MAX_SESSION_STATE,
        }
        &&& !self.after().prefixes.contains_key(id)
    }
}

/// The router before step `k`.
pub open spec fn control_at(start: FinalizeView, steps: Seq<ControlStep>, k: int) -> FinalizeView {
    if k == 0 {
        start
    } else {
        steps[k - 1].after()
    }
}

/// Whether the router may take these steps in turn.
pub open spec fn control_history(start: FinalizeView, steps: Seq<ControlStep>) -> bool {
    forall|k: int|
        0 <= k < steps.len() ==> (#[trigger] steps[k]).follows(control_at(start, steps, k))
}

proof fn lemma_control_stays(
    start: FinalizeView,
    steps: Seq<ControlStep>,
    id: Seq<char>,
    from: int,
    k: int,
)
    requires
        control_history(start, steps),
        0 <= from <= k <= steps.len(),
        control_at(start, steps, from).finalizing.contains(id),
        forall|j: int|
            from <= j < k ==> !(#[trigger] steps[j]).is_last_of(id) && !steps[j].evicts(
                control_at(start, steps, j),
                id,
            ),
    ensures
        control_at(start, steps, k).finalizing.contains(id),
    decreases k - from,
{
    if from < k {
        lemma_control_stays(start, steps, id, from, k - 1);
        let step = steps[k - 1];
        let before = control_at(start, steps, k - 1);
        assert(step.follows(before));
        assert(!step.is_last_of(id) && !step.evicts(before, id));
    }
}

/// Once the capable model has taken final control of a session, it keeps it,
/// however many requests of this and of other sessions follow, until the
/// session's last request: every request of the session is under it. A full
/// router may have to forget it for another session.
pub proof fn law_final_control_is_kept(
    start: FinalizeView,
    steps: Seq<ControlStep>,
    id: Seq<char>,
    taken: int,
    k: int,
    request: RequestView,
)
    requires
        control_history(start, steps),
        0 <= taken < k <= steps.len(),
        steps[taken] matches ControlStep::Take { id: own, .. } && own == id,
        request.identity == Some(id),
        forall|j: int|
            taken < j < k ==> !(#[trigger] steps[j]).is_last_of(id) && !steps[j].evicts(
                control_at(start, steps, j),
                id,
            ),
    ensures
        in_final_control(control_at(start, steps, k), request),
{
    assert(steps[taken].follows(control_at(start, steps, taken)));
    assert(control_at(start, steps, taken + 1) == steps[taken].after());
    lemma_control_stays(start, steps, id, taken + 1, k);
}

/// The last request of a session releases its final control and the
/// conversation that was kept for it.
pub proof fn law_last_request_releases_control(
    router: FinalizeView,
    request: RequestView,
    later: RequestView,
)
    requires
        request.identity is Some,
        request.is_final(),
        later.identity == request.identity,
    ensures
        !in_final_control(released(router, request), later),
        !released(router, request).prefixes.contains_key(request.identity->0),
{
}

/// Whether the prefix holds anything by which [`begins_with`] can tell it.
pub open spec fn tells(prefix: PrefixView, request: RequestView) -> bool {
    match (prefix.responses_input, request.responses_input()) {
        (Some(input), Some(_)) => input.len() > 0,
        _ => prefix.messages.len() > 0,
    }
}

/// The context of a request begins with the conversation with which its
/// session's execution began, and ends with the request's own.
pub proof fn law_context_begins_with_the_prefix(
    router: FinalizeView,
    request: RequestView,
    prefix: PrefixView,
)
    requires
        known_prefix(router, request) == Some(prefix),
        tells(prefix, request),
    ensures
        begins_with(context_of(router, request), prefix),
        request.messages.is_suffix_of(context_of(router, request).messages),
{
    let whole = restored(request, prefix);
    assert((prefix.messages + request.messages).subrange(0, prefix.messages.len() as int)
        =~= prefix.messages);
    assert(request.messages.is_suffix_of(prefix.messages + request.messages)) by {
        let all = prefix.messages + request.messages;
        assert(all.subrange(all.len() - request.messages.len(), all.len() as int)
            =~= request.messages);
    }
    assert(request.messages.subrange(0, request.messages.len() as int) =~= request.messages);
    match (prefix.responses_input, request.responses_input()) {
        (Some(input), Some(current)) => {
            assert((input + current).subrange(0, input.len() as int) =~= input);
            assert(whole.responses_input() == Some(input + current));
        },
        _ => {
            assert(whole.responses_input() == request.responses_input());
        },
    }
}

/// The conversation with which a session's execution began is kept as it is,
/// however many requests of this and of other sessions follow, until the
/// session's last request. A full router may have to forget it for another
/// session.
pub proof fn law_prefix_stays(
    start: FinalizeView,
    steps: Seq<ControlStep>,
    id: Seq<char>,
    from: int,
    k: int,
)
    requires
        control_history(start, steps),
        0 <= from <= k <= steps.len(),
        control_at(start, steps, from).prefixes.contains_key(id),
        forall|j: int|
            from <= j < k ==> !(#[trigger] steps[j]).is_last_of(id) && !steps[j].drops_prefix(
                control_at(start, steps, j),
                id,
            ),
    ensures
        control_at(start, steps, k).prefixes.contains_key(id),
        control_at(start, steps, k).prefixes[id] == control_at(start, steps, from).prefixes[id],
    decreases k - from,
{
    if from < k {
        law_prefix_stays(start, steps, id, from, k - 1);
        let step = steps[k - 1];
        let before = control_at(start, steps, k - 1);
        assert(step.follows(before));
        assert(!step.is_last_of(id) && !step.drops_prefix(before, id));
    }
}

/// To restore the context of a request once more changes nothing.
pub proof fn law_context_is_restored_once(
    router: FinalizeView,
    request: RequestView,
    prefix: PrefixView,
)
    requires
        known_prefix(router, request) == Some(prefix),
        request.identity matches Some(id) && router.prefixes.contains_key(id),
        tells(prefix, request),
    ensures
        context_of(router, context_of(router, request)) == context_of(router, request),
{
    law_context_begins_with_the_prefix(router, request, prefix);
}

/// The finalizer sees the context of the execution, then the completion, then
/// its prompt, behind its system prompt; which tools it may call is as the
/// client asked.
pub proof fn law_finalizer_follows_the_completion(
    router: FinalizeView,
    context: RequestView,
    echo: MessageView,
    exact_extended: bool,
)
    ensures
        ({
            let opened = RequestView { messages: context.messages.push(echo), ..context };
            let finalizer = finalizer_request(router, opened, exact_extended);
            &&& finalizer.messages == context.messages.push(echo).push(
                text_message(Role::User, router.finalizer_prompt),
            )
            &&& has_prompt(finalizer.instructions, router.system_prompt)
            &&& finalizer.tool_choice == context.tool_choice
        }),
{
}

/// The caller's trajectory is kept: planning leaves the messages as they are,
/// and a note adds itself to them and nothing else.
pub proof fn law_trajectory_is_kept(request: RequestView, prompt: Seq<char>, note: Seq<char>)
    ensures
        planning_request(request, prompt).messages == request.messages,
        blocks_of(with_note(request, note).messages) == blocks_of(request.messages).push(
            BlockView::Text { text: note },
        ),
{
    let messages = request.messages;
    if messages.len() > 0 && messages.last().role == Role::User {
        let rest = messages.drop_last();
        let content = messages.last().content;
        let noted = MessageView {
            role: Role::User,
            content: content.push(BlockView::Text { text: note }),
        };
        lemma_blocks_push(rest, messages.last());
        lemma_blocks_push(rest, noted);
        assert(rest.push(messages.last()) =~= messages);
        assert(blocks_of(rest) + noted.content =~= (blocks_of(rest) + content).push(
            BlockView::Text { text: note },
        ));
    } else {
        lemma_blocks_push(messages, text_message(Role::User, note));
        assert(blocks_of(messages) + text_message(Role::User, note).content =~= blocks_of(
            messages,
        ).push(BlockView::Text { text: note }));
    }
}

/// A system prompt is added once: to add it again changes nothing.
pub proof fn law_prompt_is_added_once(request: RequestView, prompt: Seq<char>)
    ensures
        with_prompt(with_prompt(request, prompt), prompt) == with_prompt(request, prompt),
{
    let once = with_prompt(request, prompt);
    assert(has_prompt(prompted(request.instructions, prompt), prompt));
    match request.requests.responses {
        Some(Json::Object(members)) => {
            let text = prompted_text(Json::Object(members).text_member("instructions"@), prompt);
            lemma_prompted_text_again(Json::Object(members).text_member("instructions"@), prompt);
            let written = members.insert("instructions"@, Json::Text(text));
            assert(written.insert("instructions"@, Json::Text(text)) =~= written);
            assert(Json::Object(written).text_member("instructions"@) == Some(text));
            assert(once.requests.responses == Some(Json::Object(written)));
        },
        _ => {},
    }
    assert(with_prompt(once, prompt).requests == once.requests);
}

proof fn lemma_prompted_text_again(instructions: Option<Seq<char>>, prompt: Seq<char>)
    ensures
        prompted_text(Some(prompted_text(instructions, prompt)), prompt) == prompted_text(
            instructions,
            prompt,
        ),
{
    let once = prompted_text(instructions, prompt);
    let lead = prompt + "\n\n"@;
    if let Some(text) = instructions {
        assert((lead + text).subrange(0, lead.len() as int) =~= lead);
    }
    if once.len() == 0 {
        assert(once =~= prompt) by {
            reveal_strlit("\n\n");
        }
    }
}

/// A system prompt leaves the conversation as it is, in the messages and in
/// the preserved OpenAI Responses body.
pub proof fn law_prompt_leaves_the_conversation(request: RequestView, prompt: Seq<char>)
    ensures
        with_prompt(request, prompt).messages == request.messages,
        with_prompt(request, prompt).responses_input() == request.responses_input(),
{
    reveal_strlit("instructions");
    reveal_strlit("input");
    assert("instructions"@.len() != "input"@.len());
}

/// A note ends the messages, and the conversation in the preserved OpenAI
/// Responses body where there is one.
pub proof fn law_note_ends_both_conversations(request: RequestView, note: Seq<char>)
    ensures
        with_note(request, note).messages.len() > 0,
        with_note(request, note).messages.last().role == Role::User,
        with_note(request, note).messages.last().content.len() > 0,
        with_note(request, note).messages.last().content.last() == (BlockView::Text { text: note }),
        with_note(request, note).responses_input() == match request.responses_input() {
            Some(items) => Some(items.push(user_text_item(note))),
            None => None,
        },
{
}

/// A request that the routers have written to is replayed in no other format
/// than OpenAI Responses: every other preserved body would tell it wrong.
pub proof fn law_stale_bodies_do_not_stay(request: RequestView, text: Seq<char>)
    ensures
        with_note(request, text).requests.others.len() == 0,
        with_prompt(request, text).requests.others.len() == 0,
{
}

/// A turn that calls a tool uses tools, whatever its stop reason says.
pub proof fn law_tool_call_is_tool_use(agg: AggLlmResponse)
    requires
        calls_tools(agg),
    ensures
        uses_tools(agg),
{
    let (i, j) = choose|i: int, j: int|
        0 <= i < agg.outputs@.len() && 0 <= j < agg.outputs@[i].content@.len() && (
        #[trigger] agg.outputs@[i].content@[j]) is ToolCall;
    assert(output_uses_tools(agg.outputs@[i]));
}

/// A streamed turn is replayed as it came: the response that it is released
/// as holds the very events of the stream, in order.
pub proof fn law_streamed_turn_is_replayed(items: Seq<StreamItem>, turn: GatedTurn)
    requires
        stream_failure(items) is None,
        turn.events matches Some(events) && events@ == stream_events(items),
    ensures
        turn.response().llm_response matches LlmResponse::Stream(events) && events@.len()
            == items.len() && (forall|i: int|
            0 <= i < items.len() ==> items[i] == StreamItem::Ok(#[trigger] events@[i])),
        turn.response().metadata == turn.metadata,
{
    assert forall|i: int| 0 <= i < items.len() implies items[i] == StreamItem::Ok(
        #[trigger] turn.events->0@[i],
    ) by {
        lemma_events_of_sound_stream(items, i);
    }
}

proof fn lemma_events_of_sound_stream(items: Seq<StreamItem>, i: int)
    requires
        stream_failure(items) is None,
        0 <= i < items.len(),
    ensures
        items[i] is Ok,
    decreases items.len(),
{
    if i < items.len() - 1 {
        lemma_events_of_sound_stream(items.drop_last(), i);
    }
}

/// Of the complete responses that a stream carries, the last one counts.
pub proof fn law_last_response_counts(events: Seq<LlmResponseStreamEvent>, at: int)
    requires
        0 <= at < events.len(),
        event_body(events[at]) is Some,
        forall|i: int| at < i < events.len() ==> event_body(#[trigger] events[i]) is None,
    ensures
        last_body(events) == event_body(events[at]),
    decreases events.len(),
{
    if at < events.len() - 1 {
        assert(event_body(events[events.len() - 1]) is None);
        law_last_response_counts(events.drop_last(), at);
    }
}

} // verus!
