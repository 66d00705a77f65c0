//! How a session of the plan/execute router goes on, turn by turn, told from
//! its counters.

use crate::blocks::{as_text, calls_of, response_blocks};
use crate::compaction::{compacted, mutating_call};
use crate::compaction_laws::lemma_filter_same;
use crate::laws::{after_session, SessionTurn};
use crate::plan_execute::{
    advance, answers_checkpoint, checkpoint_finished, config_fault, fresh, handed_back,
    handoff_note, inspection_request, is_latched, latch_step, mutation_ids, phase_step,
    planning_note, response_mutations, routes_to, sound, CheckpointLimits, ExecutionView, Phase,
    PlanExecuteConfig, PlanExecuteView, RouteStep, ToolSignals, MAX_EXECUTING_SESSIONS,
};
use crate::protocol::{
    AggLlmResponse, BlockView, CallView, RequestView, RoutingOutcome, ToolChoiceView,
};
use crate::replay::{noted_messages, prompted};
use crate::text::{blank, joined};
use crate::turn::calls_tools;
use crate::turn_laws::lemma_filter_map_same;
use vstd::prelude::*;

verus! {

/// A configuration is refused where the planning prompt is blank, and, with
/// checkpoints enabled, where the checkpoint prompt is blank or a limit is
/// zero; of several faults the first is told.
pub proof fn law_configuration(config: PlanExecuteConfig)
    ensures
        ({
            let enabled = config.checkpoint_interval_turns > 0;
            let unprompted = enabled && blank(config.checkpoint_prompt@);
            let limitless = enabled && (config.max_checkpoints == 0 || config.max_checkpoint_turns
                == 0 || config.max_checkpoint_turns_total == 0);
            &&& config_fault(config) is None <==> !blank(config.planning_prompt@) && !unprompted
                && !limitless
            &&& blank(config.planning_prompt@) ==> config_fault(config) == Some(
                "planning_prompt must not be empty"@,
            )
            &&& !blank(config.planning_prompt@) && unprompted ==> config_fault(config) == Some(
                "checkpoint_prompt must not be empty when checkpoints are enabled"@,
            )
            &&& !blank(config.planning_prompt@) && !unprompted && limitless ==> config_fault(config)
                == Some("checkpoint limits must be at least 1 when checkpoints are enabled"@)
        }),
{
}

/// An edit is seen where either count of the signals is not zero.
pub proof fn law_signals(signals: ToolSignals)
    ensures
        signals.mutation_seen() <==> signals.edit_count != 0 || signals.write_count != 0,
{
}

/// A session starts with no turns, no checkpoints and no known edits.
pub proof fn law_new_session()
    ensures
        fresh().efficient_turns == 0,
        fresh().checkpoints == 0,
        fresh().checkpoint_turns is None,
        fresh().checkpoint_turns_total == 0,
        forall|id: Seq<char>| !(#[trigger] fresh().known.contains(id)),
{
}

/// A turn in an open checkpoint ends it where the checkpoint's turns or the
/// session's are used up, or where an edit shows that was not known when it was
/// opened: the efficient model takes the turn, as the first since the
/// checkpoint. Otherwise it is one more turn of the checkpoint, forced to hand
/// back exactly where it is the last that the checkpoint or the session has.
pub proof fn law_turn_in_a_checkpoint(
    limits: CheckpointLimits,
    state: ExecutionView,
    mutations: Set<Seq<char>>,
)
    requires
        state.checkpoint_turns is Some,
    ensures
        ({
            let turns = state.checkpoint_turns->0;
            let total = state.checkpoint_turns_total;
            let (next, phase) = advance(limits, state, mutations);
            let ends = turns >= limits.max_turns || total >= limits.max_turns_total || exists|
                id: Seq<char>,
            | #[trigger] mutations.contains(id) && !state.known.contains(id);
            &&& next.checkpoints == state.checkpoints
            &&& if ends {
                &&& phase == Phase::Execute
                &&& next.efficient_turns == 1
                &&& next.checkpoint_turns is None
                &&& next.checkpoint_turns_total == total
                &&& forall|id: Seq<char>| !(#[trigger] next.known.contains(id))
            } else {
                &&& phase == Phase::Checkpoint {
                    force_handoff: turns + 1 >= limits.max_turns || total + 1
                        >= limits.max_turns_total,
                }
                &&& next.efficient_turns == state.efficient_turns
                &&& next.checkpoint_turns is Some
                &&& next.checkpoint_turns->0 == turns + 1
                &&& next.checkpoint_turns_total == total + 1
                &&& next.known == state.known
            }
        }),
{
    if exists|id: Seq<char>| #[trigger] mutations.contains(id) && !state.known.contains(id) {
        let id = choose|id: Seq<char>| #[trigger]
            mutations.contains(id) && !state.known.contains(id);
        assert(!mutations.subset_of(state.known));
    } else {
        assert(mutations.subset_of(state.known));
    }
}

/// A turn outside a checkpoint opens one where checkpoints are enabled, the
/// interval is over and the session may still open one. Otherwise it is one
/// more turn of the efficient model, as far as the count goes.
pub proof fn law_turn_outside_a_checkpoint(
    limits: CheckpointLimits,
    state: ExecutionView,
    mutations: Set<Seq<char>>,
)
    requires
        state.checkpoint_turns is None,
    ensures
        ({
            let total = state.checkpoint_turns_total;
            let (next, phase) = advance(limits, state, mutations);
            if limits.interval_turns > 0 && state.efficient_turns >= limits.interval_turns
                && state.checkpoints < limits.max_checkpoints && total < limits.max_turns_total {
                &&& phase == Phase::Checkpoint {
                    force_handoff: 1 >= limits.max_turns || total + 1 >= limits.max_turns_total,
                }
                &&& next.efficient_turns == state.efficient_turns
                &&& next.checkpoints == state.checkpoints + 1
                &&& next.checkpoint_turns == Some(1u32)
                &&& next.checkpoint_turns_total == total + 1
                &&& next.known == mutations
            } else {
                &&& phase == Phase::Execute
                &&& next.efficient_turns == if state.efficient_turns < u32::MAX {
                    state.efficient_turns + 1
                } else {
                    u32::MAX as int
                }
                &&& next.checkpoints == state.checkpoints
                &&& next.checkpoint_turns is None
                &&& next.checkpoint_turns_total == total
                &&& next.known == state.known
            }
        }),
{
}

/// A hand-back closes the checkpoint of the request's session and starts the
/// count of the efficient model's turns at one, whatever the session was
/// before. It changes no other session, and nothing else of the router.
pub proof fn law_hand_back_restarts_the_count(router: PlanExecuteView, request: RequestView)
    ensures
        ({
            let after = checkpoint_finished(router, request);
            &&& after.capable == router.capable
            &&& after.efficient == router.efficient
            &&& after.planning_prompt == router.planning_prompt
            &&& after.checkpoint_prompt == router.checkpoint_prompt
            &&& after.limits == router.limits
            &&& forall|id: Seq<char>|
                after.sessions.contains_key(id) == #[trigger] router.sessions.contains_key(id)
            &&& forall|id: Seq<char>| #[trigger]
                router.sessions.contains_key(id) ==> {
                    let old_state = router.sessions[id];
                    let state = after.sessions[id];
                    if request.identity == Some(id) {
                        &&& state.efficient_turns == 1
                        &&& state.checkpoint_turns is None
                        &&& state.checkpoints == old_state.checkpoints
                        &&& state.checkpoint_turns_total == old_state.checkpoint_turns_total
                        &&& state.known =~= Set::<Seq<char>>::empty()
                    } else {
                        state == old_state
                    }
                }
        }),
{
}

/// Who takes turn `k` of a session.
pub open spec fn phase_in_session(
    limits: CheckpointLimits,
    turns: Seq<SessionTurn>,
    k: int,
) -> Phase {
    advance(limits, after_session(limits, turns.take(k)), turns[k].mutations).1
}

proof fn lemma_next_turn(limits: CheckpointLimits, turns: Seq<SessionTurn>, k: int)
    requires
        0 <= k < turns.len(),
    ensures
        ({
            let before = after_session(limits, turns.take(k));
            let (next, phase) = advance(limits, before, turns[k].mutations);
            after_session(limits, turns.take(k + 1)) == if phase is Checkpoint
                && turns[k].hands_back {
                handed_back(next)
            } else {
                next
            }
        }),
{
    assert(turns.take(k + 1).drop_last() =~= turns.take(k));
}

proof fn lemma_executing_turns(
    limits: CheckpointLimits,
    turns: Seq<SessionTurn>,
    from: int,
    to: int,
)
    requires
        0 <= from <= to <= turns.len(),
        after_session(limits, turns.take(from)).checkpoint_turns is None,
        forall|j: int|
            from <= j < to ==> #[trigger] phase_in_session(limits, turns, j) == Phase::Execute,
        after_session(limits, turns.take(from)).efficient_turns + (to - from) <= u32::MAX,
    ensures
        after_session(limits, turns.take(to)) == (ExecutionView {
            efficient_turns: (after_session(limits, turns.take(from)).efficient_turns + (to
                - from)) as u32,
            ..after_session(limits, turns.take(from))
        }),
    decreases to - from,
{
    if from < to {
        lemma_executing_turns(limits, turns, from, to - 1);
        lemma_next_turn(limits, turns, to - 1);
        assert(phase_in_session(limits, turns, to - 1) == Phase::Execute);
    }
}

/// From a turn after which no checkpoint is open, the next checkpoint comes
/// exactly where the interval is over.
proof fn lemma_interval(limits: CheckpointLimits, turns: Seq<SessionTurn>, from: int, to: int)
    requires
        0 <= from <= to < turns.len(),
        after_session(limits, turns.take(from)).checkpoint_turns is None,
        after_session(limits, turns.take(from)).efficient_turns <= 1,
        forall|j: int|
            from <= j < to ==> #[trigger] phase_in_session(limits, turns, j) == Phase::Execute,
        phase_in_session(limits, turns, to) is Checkpoint,
    ensures
        limits.interval_turns > 0,
        after_session(limits, turns.take(from)).efficient_turns + (to - from)
            == limits.interval_turns,
{
    let first = after_session(limits, turns.take(from));
    if first.efficient_turns + (to - from) <= u32::MAX {
        lemma_executing_turns(limits, turns, from, to);
        if to > from && first.efficient_turns + (to - from) > limits.interval_turns {
            lemma_executing_turns(limits, turns, from, to - 1);
            assert(phase_in_session(limits, turns, to - 1) == Phase::Execute);
        }
    } else {
        let full = from + (u32::MAX - first.efficient_turns);
        lemma_executing_turns(limits, turns, from, full);
        assert forall|j: int| full <= j <= to implies #[trigger] after_session(
            limits,
            turns.take(j),
        ) == after_session(limits, turns.take(full)) by {
            lemma_saturated(limits, turns, full, j);
        }
        assert(phase_in_session(limits, turns, full) == Phase::Execute);
        assert(after_session(limits, turns.take(to)) == after_session(limits, turns.take(full)));
    }
}

proof fn lemma_saturated(limits: CheckpointLimits, turns: Seq<SessionTurn>, from: int, to: int)
    requires
        0 <= from <= to <= turns.len(),
        after_session(limits, turns.take(from)).checkpoint_turns is None,
        after_session(limits, turns.take(from)).efficient_turns == u32::MAX,
        forall|j: int|
            from <= j < to ==> #[trigger] phase_in_session(limits, turns, j) == Phase::Execute,
    ensures
        after_session(limits, turns.take(to)) == after_session(limits, turns.take(from)),
    decreases to - from,
{
    if from < to {
        lemma_saturated(limits, turns, from, to - 1);
        lemma_next_turn(limits, turns, to - 1);
        assert(phase_in_session(limits, turns, to - 1) == Phase::Execute);
    }
}

/// The first checkpoint of a session comes after as many turns of the
/// efficient model as the interval says.
pub proof fn law_first_checkpoint(limits: CheckpointLimits, turns: Seq<SessionTurn>, k: int)
    requires
        0 <= k < turns.len(),
        phase_in_session(limits, turns, k) is Checkpoint,
        forall|j: int|
            0 <= j < k ==> #[trigger] phase_in_session(limits, turns, j) == Phase::Execute,
    ensures
        k == limits.interval_turns,
{
    assert(turns.take(0) =~= Seq::empty());
    assert(after_session(limits, turns.take(0)) == fresh());
    lemma_interval(limits, turns, 0, k);
}

/// Between two checkpoints of a session, however many came before, the
/// efficient model takes exactly as many turns as the interval says. The turn
/// at the end of which a checkpoint hands back is one of them.
pub proof fn law_turns_between_checkpoints(
    limits: CheckpointLimits,
    turns: Seq<SessionTurn>,
    one: int,
    next: int,
)
    requires
        0 <= one < next < turns.len(),
        phase_in_session(limits, turns, one) is Checkpoint,
        phase_in_session(limits, turns, next) is Checkpoint,
        forall|j: int|
            one < j < next ==> #[trigger] phase_in_session(limits, turns, j) == Phase::Execute,
        turns[one].hands_back || one + 1 < next,
    ensures
        next - one - 1 + if turns[one].hands_back {
            1int
        } else {
            0
        } == limits.interval_turns,
{
    lemma_next_turn(limits, turns, one);
    if turns[one].hands_back {
        lemma_interval(limits, turns, one + 1, next);
    } else {
        lemma_next_turn(limits, turns, one + 1);
        assert(phase_in_session(limits, turns, one + 1) == Phase::Execute);
        lemma_interval(limits, turns, one + 2, next);
    }
}

/// Where a session may still open a checkpoint, one comes as soon as the
/// interval is over: the efficient model never takes more turns in a row.
pub proof fn law_checkpoint_is_not_late(
    limits: CheckpointLimits,
    turns: Seq<SessionTurn>,
    from: int,
    to: int,
)
    requires
        0 <= from < to <= turns.len(),
        limits.interval_turns > 0,
        forall|j: int|
            from <= j < to ==> #[trigger] phase_in_session(limits, turns, j) == Phase::Execute,
        after_session(limits, turns.take(from)).checkpoint_turns is None,
        after_session(limits, turns.take(from)).checkpoints < limits.max_checkpoints,
        after_session(limits, turns.take(from)).checkpoint_turns_total < limits.max_turns_total,
    ensures
        after_session(limits, turns.take(from)).efficient_turns + (to - from)
            <= limits.interval_turns,
    decreases to - from,
{
    if to - 1 > from {
        law_checkpoint_is_not_late(limits, turns, from, to - 1);
        lemma_executing_turns(limits, turns, from, to - 1);
    }
    assert(phase_in_session(limits, turns, to - 1) == Phase::Execute);
}

/// A request decides the router's step. Without a session its history decides;
/// the last request of a session takes the session out; before the first edit
/// nothing changes; from then on the session goes on by one turn, from nothing
/// where it is new. Where the router is full, one other session leaves for a
/// new one. What the router was made with never changes.
pub proof fn law_request_decides(
    before: PlanExecuteView,
    request: RequestView,
    mutation_seen: bool,
    after: PlanExecuteView,
    phase: Phase,
)
    requires
        phase_step(before, request, mutation_seen, after, phase),
    ensures
        after.capable == before.capable,
        after.efficient == before.efficient,
        after.planning_prompt == before.planning_prompt,
        after.checkpoint_prompt == before.checkpoint_prompt,
        after.limits == before.limits,
        match request.identity {
            None => {
                &&& after.sessions == before.sessions
                &&& phase == if mutation_seen {
                    Phase::Execute
                } else {
                    Phase::Plan
                }
            },
            Some(id) => {
                let known = before.sessions.contains_key(id);
                if request.is_final() {
                    &&& after.sessions == before.sessions.remove(id)
                    &&& phase == if mutation_seen || known {
                        Phase::Execute
                    } else {
                        Phase::Plan
                    }
                } else if !mutation_seen && !known {
                    after.sessions == before.sessions && phase == Phase::Plan
                } else {
                    let state = if known {
                        before.sessions[id]
                    } else {
                        ExecutionView {
                            efficient_turns: 0,
                            checkpoints: 0,
                            checkpoint_turns: None,
                            checkpoint_turns_total: 0,
                            known: Set::empty(),
                        }
                    };
                    let (next, turn) = advance(
                        before.limits,
                        state,
                        mutation_ids(request.messages),
                    );
                    &&& phase == turn
                    &&& known || before.sessions.len() < 4096 ==> after.sessions
                        == before.sessions.insert(id, next)
                    &&& !known && before.sessions.len() >= 4096 ==> exists|evicted: Seq<char>|
                        #[trigger]
                        before.sessions.contains_key(evicted) && after.sessions
                            == before.sessions.remove(evicted).insert(id, next)
                }
            },
        },
{
}

/// A router keeps up to 4096 sessions.
pub proof fn law_capacity(router: PlanExecuteView)
    requires
        sound(router),
    ensures
        router.sessions.len() <= 4096,
        router.sessions.dom().finite(),
        MAX_EXECUTING_SESSIONS == 4096,
{
}

/// The tracker says that a request is one of execution where an edit is seen
/// or its session is tracked; it then tracks the session, up to 4096 of them,
/// until the session's last request.
pub proof fn law_request_is_tracked(
    before: Set<Seq<char>>,
    request: RequestView,
    mutation_seen: bool,
    after: Set<Seq<char>>,
    executing: bool,
)
    requires
        latch_step(before, request, mutation_seen, after, executing),
    ensures
        executing <==> mutation_seen || (request.identity is Some && before.contains(
            request.identity->0,
        )),
        is_latched(before, request, mutation_seen) == executing,
        match request.identity {
            None => after == before,
            Some(id) => {
                &&& request.is_final() ==> after == before.remove(id)
                &&& !request.is_final() && (!mutation_seen || before.contains(id)) ==> after
                    == before
                &&& !request.is_final() && mutation_seen && !before.contains(id) && before.len()
                    < 4096 ==> after == before.insert(id)
                &&& !request.is_final() && mutation_seen && !before.contains(id) && before.len()
                    >= 4096 ==> exists|evicted: Seq<char>| #[trigger]
                    before.contains(evicted) && after == before.remove(evicted).insert(id)
            },
        },
{
}

/// A request is one of execution where an edit is seen or its session executes.
pub proof fn law_latched(sessions: Set<Seq<char>>, request: RequestView, mutation_seen: bool)
    ensures
        is_latched(sessions, request, mutation_seen) <==> mutation_seen || (
        request.identity is Some && sessions.contains(request.identity->0)),
{
}

/// How many turns of a session are checkpoint turns.
pub open spec fn checkpoint_turns(limits: CheckpointLimits, turns: Seq<SessionTurn>) -> nat
    decreases turns.len(),
{
    if turns.len() == 0 {
        0
    } else {
        checkpoint_turns(limits, turns.drop_last()) + if phase_in_session(
            limits,
            turns,
            turns.len() - 1,
        ) is Checkpoint {
            1nat
        } else {
            0
        }
    }
}

/// However long a session goes on, no more of its turns are checkpoint turns
/// than it may have in all, it opens no more checkpoints than it may, and its
/// open checkpoint has no more turns than one may have.
pub proof fn law_checkpoint_turns_are_bounded(limits: CheckpointLimits, turns: Seq<SessionTurn>)
    requires
        limits.interval_turns > 0 ==> limits.max_checkpoints > 0 && limits.max_turns > 0
            && limits.max_turns_total > 0,
    ensures
        checkpoint_turns(limits, turns) <= limits.max_turns_total,
        after_session(limits, turns).checkpoint_turns_total == checkpoint_turns(limits, turns),
        after_session(limits, turns).checkpoints <= limits.max_checkpoints,
        after_session(limits, turns).checkpoint_turns matches Some(open) ==> 1 <= open
            <= limits.max_turns,
    decreases turns.len(),
{
    if turns.len() > 0 {
        let rest = turns.drop_last();
        law_checkpoint_turns_are_bounded(limits, rest);
        assert(turns.take(turns.len() - 1) =~= rest);
    }
}

/// A decided turn belongs to the phase that it is named after.
pub proof fn law_step_phase(step: RouteStep)
    ensures
        step.phase() == match step {
            RouteStep::Execute(_) => Phase::Execute,
            RouteStep::Plan(_) => Phase::Plan,
            RouteStep::Checkpoint { force_handoff, .. } => Phase::Checkpoint { force_handoff },
        },
{
}

/// A request is routed to a model where the outcome names that model, no
/// fallbacks, and the request.
pub proof fn law_routes_to(outcome: RoutingOutcome, model: Seq<char>, request: RequestView)
    ensures
        routes_to(outcome, model, request) <==> match outcome {
            RoutingOutcome::RouteTo { target, fallbacks, request: routed } => target.name@ == model
                && fallbacks@.len() == 0 && routed@ == request,
            RoutingOutcome::Answered { .. } => false,
        },
{
}

/// A checkpoint's answer goes to the client where it calls a tool that edits,
/// and where it calls any tool in a turn that is not forced.
pub proof fn law_answer_goes_to_the_client(response: AggLlmResponse, force_handoff: bool)
    ensures
        answers_checkpoint(response, force_handoff) <==> (exists|k: int|
            0 <= k < calls_of(response_blocks(response)).len() && (#[trigger] calls_of(
                response_blocks(response),
            )[k]).mutating) || (!force_handoff && calls_tools(response)),
{
    let calls = calls_of(response_blocks(response));
    let edits = calls.filter(mutating_call());
    if exists|k: int| 0 <= k < calls.len() && (#[trigger] calls[k]).mutating {
        let k = choose|k: int| 0 <= k < calls.len() && (#[trigger] calls[k]).mutating;
        calls.lemma_filter_contains(mutating_call(), k);
        assert(edits.contains(calls[k]));
    }
    if response_mutations(response).len() > 0 {
        calls.lemma_filter_pred(mutating_call(), 0);
        assert(edits.contains(edits[0]));
        calls.lemma_filter_contains_rev(mutating_call(), edits[0]);
        let k = choose|k: int| 0 <= k < calls.len() && calls[k] == edits[0];
        assert(calls[k].mutating);
    }
}

/// The edits of a response are its calls that edit, in order.
pub proof fn law_edits_of_a_response(response: AggLlmResponse)
    ensures
        response_mutations(response) == calls_of(response_blocks(response)).filter(
            |call: CallView| call.mutating,
        ),
{
    lemma_filter_same(
        calls_of(response_blocks(response)),
        |call: CallView| call.mutating,
        mutating_call(),
    );
}

/// The note of a hand-back is the visible text of the planner's answer, behind
/// words that say whether its tools were blocked; without text it says so.
pub proof fn law_handoff_note(response: AggLlmResponse, blocked: bool)
    ensures
        ({
            let text = joined(
                response_blocks(response).filter_map(
                    |block: BlockView|
                        match block {
                            BlockView::Text { text } => Some(text),
                            _ => None,
                        },
                ),
            );
            &&& planning_note(response) == text
            &&& blocked ==> handoff_note(text, blocked)
                == "The bounded planning checkpoint ended before its requested tools ran. Continue implementation using the evidence already available.\n\nLatest planning note:\n"@
                + if text.len() > 0 {
                text
            } else {
                "No additional explanation was provided."@
            }
            &&& !blocked ==> handoff_note(text, blocked)
                == "A planning checkpoint inspected the current environment. Continue implementation using its latest assessment.\n\nUpdated planning note:\n"@
                + if text.len() > 0 {
                text
            } else {
                "The existing direction remains appropriate."@
            }
        }),
{
    let texts = |block: BlockView|
        match block {
            BlockView::Text { text } => Some(text),
            _ => None,
        };
    lemma_filter_map_same(response_blocks(response), as_text(), texts);
}

/// The planner inspects the shortened conversation, with the checkpoint prompt
/// at its end, behind the planning prompt, as a stream, and without tools
/// where its turn is forced. No preserved body stays, and nothing else of the
/// request changes.
pub proof fn law_inspection(router: PlanExecuteView, request: RequestView, force_handoff: bool)
    ensures
        ({
            let inspected = inspection_request(router, request, force_handoff);
            &&& inspected.messages == noted_messages(
                compacted(request.messages),
                router.checkpoint_prompt,
            )
            &&& inspected.instructions == prompted(request.instructions, router.planning_prompt)
            &&& inspected.stream
            &&& inspected.tool_choice == if force_handoff {
                Some(ToolChoiceView::Forbidden)
            } else {
                request.tool_choice
            }
            &&& inspected.requests.responses is None
            &&& inspected.requests.others.len() == 0
            &&& inspected.model == request.model
            &&& inspected.metadata == request.metadata
            &&& inspected.identity == request.identity
            &&& inspected.detail == request.detail
            &&& inspected.llm_detail == request.llm_detail
        }),
{
}

} // verus!
