//! What the calls of the routers and of their helpers give, whatever they are
//! called on.

use crate::compaction::{
    compact_messages, compact_responses_input, compacted, judged, raw_compacted, selected_ids,
    selected_message_call_ids, unjudged,
};
use crate::error::LibsyError;
use crate::json::{json_list, json_of};
use crate::pattern::regex_error_text;
use crate::plan_execute::{
    answers_checkpoint, checkpoint_finished, compact_execution_context, config_fault,
    handoff_note, inspection_request, is_latched, mutation_call_ids, mutation_ids, phase_step,
    planning_note, planning_request, shortened_request, ExecutionTracker, Phase, PlanExecute,
    PlanExecuteConfig, RouteStep, ToolSignals,
};
use crate::plan_execute_finalize::{
    begins_with, configured, context_of, control_taken, declares_completion,
    finalize_config_fault, finalize_evidence, finalizer_request, in_final_control, models_view,
    prefix_kept, released, request_starts_with, restore_planner_prefix, restored, route_first,
    routed_first, FinalizeStep, PlanExecuteFinalize, PlanExecuteFinalizeConfig,
    PlannerCheckpoint, TurnVerdict,
};
use crate::protocol::{
    messages_view, AggLlmResponse, LlmResponse, Message, Metadata, ModelId, Request, RequestView,
    Response, RoutingOutcome,
};
use crate::replay::{
    append_note, append_note_preserving_responses, noted_messages, prepend_system_prompt,
    prepend_system_prompt_preserving_responses, with_note, with_prompt,
};
use crate::sessions::IdSet;
use crate::turn::{
    buffer_turn, calls_tools, has_tool_call, has_tool_use, is_final_answer, is_final_body,
    last_body, uses_tools, visible, visible_text, GatedTurn, StreamItem, TurnBuffer,
};
use crate::turn_laws::{law_item_is_taken, law_stream_fails_on_failures_only, sound_item};
use serde_json::Value;
use vstd::prelude::*;

verus! {

/// A stream is buffered where each item is an event without a failing chunk,
/// and then holds every event in order; any other stream fails.
pub proof fn law_buffered_stream(
    executor: &str,
    items: Vec<StreamItem>,
    result: Result<TurnBuffer, LibsyError>,
)
    requires
        call_ensures(buffer_turn, (executor, items), result),
    ensures
        result is Ok <==> (forall|i: int|
            0 <= i < items@.len() ==> (#[trigger] items@[i] is Ok && forall|j: int|
                0 <= j < items@[i]->Ok_0.normalized@.len() ==> !(
                #[trigger] items@[i]->Ok_0.normalized@[j] is DecodeError) && !(
                items@[i]->Ok_0.normalized@[j] is StreamError))),
        result matches Ok(buffer) ==> buffer.events().len() == items@.len() && (forall|i: int|
            0 <= i < items@.len() ==> StreamItem::Ok(#[trigger] buffer.events()[i]) == items@[i]),
        result matches Err(error) ==> error is ClientCall && error->target@ == executor@,
{
    law_stream_fails_on_failures_only(items@);
}

/// An item of a stream is held where it is an event without a failing chunk;
/// any other fails the call of the executor and is not held.
pub proof fn law_buffered_item(
    buffer: &mut TurnBuffer,
    executor: &str,
    item: StreamItem,
    result: Result<(), LibsyError>,
)
    requires
        call_ensures(TurnBuffer::push, (buffer, executor, item), result),
    ensures
        result is Ok <==> sound_item(item),
        sound_item(item) ==> final(buffer).events() == old(buffer).events().push(item->Ok_0),
        !sound_item(item) ==> final(buffer).events() == old(buffer).events(),
        result matches Err(error) ==> error is ClientCall && error->target@ == executor@,
{
    law_item_is_taken(item);
}

/// A finished turn holds the events as they came and the response as it was
/// put together, but for the preserved OpenAI Responses body, which is the last
/// complete one of the events where they carry any.
pub proof fn law_finished_turn(
    buffer: TurnBuffer,
    agg: AggLlmResponse,
    metadata: Option<Metadata>,
    turn: GatedTurn,
)
    requires
        call_ensures(TurnBuffer::finish, (buffer, agg, metadata), turn),
    ensures
        turn.events is Some && turn.events->0@ == buffer.events(),
        turn.metadata == metadata,
        turn.agg.outputs == agg.outputs,
        turn.agg.detail == agg.detail,
        turn.agg.preservation.responses.others == agg.preservation.responses.others,
        ({
            let held = turn.agg.preservation.responses.responses;
            let given = agg.preservation.responses.responses;
            match last_body(buffer.events()) {
                Some(body) => held is Some && json_of(held->0) == body,
                None => held is Some == given is Some && (held is Some ==> json_of(held->0)
                    == json_of(given->0)),
            }
        }),
{
}

/// A turn is released as its events, or as the response that it is.
pub proof fn law_released_turn(turn: GatedTurn, response: Response)
    requires
        call_ensures(GatedTurn::into_response, (turn,), response),
    ensures
        response.metadata == turn.metadata,
        response.llm_response == match turn.events {
            Some(events) => LlmResponse::Stream(events),
            None => LlmResponse::Agg(turn.agg),
        },
{
}

/// What is told of a turn is what its outputs, blocks and preserved body say.
pub proof fn law_told_of_a_turn(
    agg: &AggLlmResponse,
    uses: bool,
    calls: bool,
    last: bool,
    text: Option<String>,
)
    requires
        call_ensures(has_tool_use, (agg,), uses),
        call_ensures(has_tool_call, (agg,), calls),
        call_ensures(is_final_answer, (agg,), last),
        call_ensures(visible_text, (agg,), text),
    ensures
        uses == uses_tools(*agg),
        calls == calls_tools(*agg),
        last <==> agg.preservation.responses.responses is Some && is_final_body(
            json_of(agg.preservation.responses.responses->0),
        ),
        text is Some == visible(*agg) is Some,
        text is Some ==> visible(*agg) == Some(text->0@),
{
}

/// To shorten gives the shortened conversation, of messages, of OpenAI
/// Responses items and of whole requests.
pub proof fn law_shortened(
    messages: &[Message],
    short: Vec<Message>,
    selected: IdSet,
    input: &[Value],
    verdicts: &Vec<bool>,
    items: Vec<Value>,
    base: &Request,
    request: Request,
    ids: IdSet,
)
    requires
        call_ensures(compact_messages, (messages,), short),
        call_ensures(selected_message_call_ids, (messages,), selected),
        call_ensures(compact_responses_input, (input, verdicts), items),
        call_ensures(compact_execution_context, (base, verdicts), request),
        call_ensures(mutation_call_ids, (base,), ids),
    ensures
        messages_view(short@) == compacted(messages_view(messages@)),
        selected@ == selected_ids(messages_view(messages@)),
        json_list(items@) == unjudged(raw_compacted(judged(json_list(input@), verdicts@))),
        request@ == shortened_request(base@, verdicts@),
        ids@ == mutation_ids(base@.messages),
{
}

/// Notes and prompts rewrite the request that they are given.
pub proof fn law_rewritten(
    noted: &mut Request,
    extended: &mut Request,
    prompted: &mut Request,
    instructed: &mut Request,
    text: &str,
)
    requires
        call_ensures(append_note, (noted, text), ()),
        call_ensures(append_note_preserving_responses, (extended, text), ()),
        call_ensures(prepend_system_prompt, (prompted, text), ()),
        call_ensures(prepend_system_prompt_preserving_responses, (instructed, text), ()),
    ensures
        final(noted)@.messages == noted_messages(old(noted)@.messages, text@),
        final(noted)@.requests.responses is None && final(noted)@.requests.others.len() == 0,
        final(noted)@ == (RequestView {
            messages: final(noted)@.messages,
            requests: final(noted)@.requests,
            ..old(noted)@
        }),
        final(extended)@ == with_note(old(extended)@, text@),
        final(prompted)@ == planning_request(old(prompted)@, text@),
        final(instructed)@ == with_prompt(old(instructed)@, text@),
{
}

/// A router is made where the configuration has no fault, and then holds what
/// it was given and no sessions; otherwise the fault is told.
pub proof fn law_made_router(
    capable: ModelId,
    efficient: ModelId,
    config: PlanExecuteConfig,
    result: Result<PlanExecute, LibsyError>,
)
    requires
        call_ensures(PlanExecute::new, (capable, efficient, config), result),
    ensures
        result is Ok <==> config_fault(config) is None,
        result matches Err(error) ==> error.says(config_fault(config)->0),
        result matches Ok(router) ==> {
            &&& router.wf()
            &&& router@.capable == capable.name@
            &&& router@.efficient == efficient.name@
            &&& router@.planning_prompt == config.planning_prompt@
            &&& router@.checkpoint_prompt == config.checkpoint_prompt@
            &&& router@.limits.interval_turns == config.checkpoint_interval_turns
            &&& router@.limits.max_checkpoints == config.max_checkpoints
            &&& router@.limits.max_turns == config.max_checkpoint_turns
            &&& router@.limits.max_turns_total == config.max_checkpoint_turns_total
            &&& router@.sessions.dom() =~= Set::<Seq<char>>::empty()
        },
{
}

/// A request is given its phase by the router's step, and a hand-back finishes
/// the checkpoint.
pub proof fn law_phase_and_hand_back(
    router: &mut PlanExecute,
    request: &Request,
    signals: ToolSignals,
    phase: Phase,
    finished: &mut PlanExecute,
)
    requires
        call_ensures(PlanExecute::phase, (router, request, signals), phase),
        call_ensures(PlanExecute::finish_checkpoint, (finished, request), ()),
    ensures
        phase_step(old(router)@, request@, signals.mutation_seen(), final(router)@, phase),
        final(finished)@ == checkpoint_finished(old(finished)@, request@),
{
}

/// An executing turn goes to the efficient model with the request as it is, a
/// planning turn to the capable model behind the planning prompt, and a
/// checkpoint is to be made of the request as it is.
pub proof fn law_routed_turn(
    router: &mut PlanExecute,
    request: Request,
    signals: ToolSignals,
    step: RouteStep,
)
    requires
        call_ensures(PlanExecute::route, (router, request, signals), step),
    ensures
        ({
            let phase = match step {
                RouteStep::Execute(_) => Phase::Execute,
                RouteStep::Plan(_) => Phase::Plan,
                RouteStep::Checkpoint { force_handoff, .. } => Phase::Checkpoint { force_handoff },
            };
            phase_step(old(router)@, request@, signals.mutation_seen(), final(router)@, phase)
        }),
        match step {
            RouteStep::Execute(outcome) => (outcome matches RoutingOutcome::RouteTo {
                target,
                fallbacks,
                request: routed,
            } && target.name@ == old(router)@.efficient && fallbacks@.len() == 0 && routed@
                == request@),
            RouteStep::Plan(outcome) => (outcome matches RoutingOutcome::RouteTo {
                target,
                fallbacks,
                request: routed,
            } && target.name@ == old(router)@.capable && fallbacks@.len() == 0 && routed@
                == planning_request(request@, old(router)@.planning_prompt)),
            RouteStep::Checkpoint { request: inspected, .. } => inspected == request,
        },
{
}

/// The planner is sent the inspection of the request.
pub proof fn law_checkpoint_request(
    router: &PlanExecute,
    request: &Request,
    verdicts: &Vec<bool>,
    force_handoff: bool,
    inspected: Request,
)
    requires
        call_ensures(
            PlanExecute::checkpoint_request,
            (router, request, verdicts, force_handoff),
            inspected,
        ),
    ensures
        inspected@ == inspection_request(router@, request@, force_handoff),
{
}

/// A checkpoint's answer that goes to the client is the planner's, as a stream
/// where the client asked for one, and leaves the router as it is. Any other
/// answer hands back: the request goes to the efficient model with the note,
/// which says that tools were blocked where a forced turn called any.
pub proof fn law_settled_checkpoint(
    router: &mut PlanExecute,
    request: Request,
    inspected: Request,
    aggregate: AggLlmResponse,
    metadata: Option<Metadata>,
    force_handoff: bool,
    outcome: RoutingOutcome,
)
    requires
        call_ensures(
            PlanExecute::settle_checkpoint,
            (router, request, inspected, aggregate, metadata, force_handoff),
            outcome,
        ),
    ensures
        answers_checkpoint(aggregate, force_handoff) ==> {
            &&& final(router)@ == old(router)@
            &&& outcome matches RoutingOutcome::Answered { model, request: answered, response }
            &&& model.name@ == old(router)@.capable
            &&& answered == inspected
            &&& response.metadata == metadata
            &&& request.llm_request.stream ==> response.llm_response == LlmResponse::AggStream(
                aggregate,
            )
            &&& !request.llm_request.stream ==> response.llm_response == LlmResponse::Agg(aggregate)
        },
        !answers_checkpoint(aggregate, force_handoff) ==> {
            &&& final(router)@ == checkpoint_finished(old(router)@, request@)
            &&& outcome matches RoutingOutcome::RouteTo { target, fallbacks, request: routed }
            &&& target.name@ == old(router)@.efficient
            &&& fallbacks@.len() == 0
            &&& routed@ == with_note(
                request@,
                handoff_note(planning_note(aggregate), force_handoff && calls_tools(aggregate)),
            )
        },
{
}

/// The tracker tells a request of execution from one of planning.
pub proof fn law_tracked(
    tracker: &mut ExecutionTracker,
    request: &Request,
    signals: ToolSignals,
    executing: bool,
)
    requires
        call_ensures(ExecutionTracker::is_executing, (tracker, request, signals), executing),
    ensures
        executing == is_latched(old(tracker)@, request@, signals.mutation_seen()),
        request@.identity matches Some(id) ==> {
            &&& request@.is_final() ==> !final(tracker)@.contains(id)
            &&& !request@.is_final() ==> final(tracker)@.contains(id) == (signals.mutation_seen()
                || old(tracker)@.contains(id))
        },
{
}

/// A finalizing router is made of a configuration without a fault and of a
/// pattern that compiled; otherwise the fault is told.
pub proof fn law_made_finalizer(
    config: PlanExecuteFinalizeConfig,
    compiled: Result<regex::Regex, regex::Error>,
    result: Result<PlanExecuteFinalize, LibsyError>,
)
    requires
        call_ensures(PlanExecuteFinalize::with_pattern, (config, compiled), result),
    ensures
        result is Ok <==> finalize_config_fault(config) is None && compiled is Ok,
        result matches Ok(router) ==> router.wf() && router@ == configured(config, compiled->Ok_0),
        finalize_config_fault(config) matches Some(message) ==> result->Err_0.says(message),
        finalize_config_fault(config) is None && compiled is Err ==> result->Err_0.says(
            "terminal_pattern is invalid: "@ + regex_error_text(compiled->Err_0),
        ),
{
}

/// Whether a request is under final control is told before its session is
/// released; control is taken for a session only.
pub proof fn law_asked_and_taken_control(
    asked: &mut PlanExecuteFinalize,
    taken: &mut PlanExecuteFinalize,
    request: &Request,
    active: bool,
    result: Result<(), LibsyError>,
)
    requires
        call_ensures(PlanExecuteFinalize::is_finalizing, (asked, request), active),
        call_ensures(PlanExecuteFinalize::begin_finalizing, (taken, request), result),
    ensures
        active == in_final_control(old(asked)@, request@),
        final(asked)@ == released(old(asked)@, request@),
        result is Ok <==> request.identity is Some,
        request.identity is Some ==> control_taken(
            old(taken)@,
            request.identity->0.key@,
            final(taken)@,
        ),
        result matches Err(error) ==> error.says(
            "plan_execute_finalize requires a session identity"@,
        ) && final(taken)@ == old(taken)@,
{
}

/// The requests of the finalizer are made of the context of the execution.
pub proof fn law_finalizer_requests(
    router: &mut PlanExecuteFinalize,
    request: &Request,
    context: Request,
    opener: &mut PlanExecuteFinalize,
    echo: Message,
    opened: Request,
    closer: &PlanExecuteFinalize,
    exact_extended: bool,
    closed: Request,
    continuer: &mut PlanExecuteFinalize,
    continued: Request,
)
    requires
        call_ensures(PlanExecuteFinalize::execution_context, (router, request), context),
        call_ensures(PlanExecuteFinalize::open_finalizer_request, (opener, request, echo), opened),
        call_ensures(
            PlanExecuteFinalize::close_finalizer_request,
            (closer, opened, exact_extended),
            closed,
        ),
        call_ensures(PlanExecuteFinalize::prepare_continuation, (continuer, request), continued),
    ensures
        context@ == context_of(old(router)@, request@),
        prefix_kept(old(router)@, request@, final(router)@),
        opened@ == (RequestView {
            messages: context_of(old(opener)@, request@).messages.push(echo@),
            ..context_of(old(opener)@, request@)
        }),
        prefix_kept(old(opener)@, request@, final(opener)@),
        closed@ == finalizer_request(closer@, opened@, exact_extended),
        continued@ == with_prompt(
            context_of(old(continuer)@, request@),
            old(continuer)@.system_prompt,
        ),
        prefix_kept(old(continuer)@, request@, final(continuer)@),
{
}

/// A kept conversation is told and put back as its items and messages say.
pub proof fn law_told_and_restored(
    prefix: &PlannerCheckpoint,
    current: &Request,
    found: bool,
    request: Request,
)
    requires
        call_ensures(request_starts_with, (prefix, current), found),
        call_ensures(restore_planner_prefix, (prefix, current), request),
    ensures
        found == begins_with(current@, prefix@),
        request@ == restored(current@, prefix@),
{
}

/// Under final control the capable model goes on with the context; before the
/// first edit it plans; from then on the efficient models are to answer, with
/// the request as it is.
pub proof fn law_routed_request(
    router: &mut PlanExecuteFinalize,
    request: Request,
    signals: ToolSignals,
    capable: &[ModelId],
    efficient: &[ModelId],
    result: Result<FinalizeStep, LibsyError>,
)
    requires
        call_ensures(
            PlanExecuteFinalize::route,
            (router, request, signals, capable, efficient),
            result,
        ),
    ensures
        ({
            let before = old(router)@;
            let executing = is_latched(before.executing, request@, signals.mutation_seen());
            if in_final_control(before, request@) {
                let seen = released(before, request@);
                let continued = with_prompt(context_of(seen, request@), before.system_prompt);
                &&& prefix_kept(seen, request@, final(router)@)
                &&& match result {
                    Ok(FinalizeStep::Finalize(outcome)) => routed_first(
                        Ok(outcome),
                        models_view(capable@),
                        continued,
                        "finalize"@,
                    ),
                    Err(error) => capable@.len() == 0 && error.says(
                        "no models available for "@ + "finalize"@ + " phase"@,
                    ),
                    _ => false,
                }
            } else if !executing {
                match result {
                    Ok(FinalizeStep::Plan(outcome)) => routed_first(
                        Ok(outcome),
                        models_view(capable@),
                        planning_request(request@, before.planning_prompt),
                        "plan"@,
                    ),
                    Err(error) => capable@.len() == 0 && error.says(
                        "no models available for "@ + "plan"@ + " phase"@,
                    ),
                    _ => false,
                }
            } else {
                match result {
                    Ok(FinalizeStep::Execute { request: executed, models, selected }) => {
                        &&& efficient@.len() > 0
                        &&& executed == request
                        &&& models_view(models@) == models_view(efficient@)
                        &&& selected.name@ == efficient@[0].name@
                    },
                    Err(error) => efficient@.len() == 0 && error.says(
                        "no models available for category Efficient"@,
                    ),
                    _ => false,
                }
            }
        }),
        !in_final_control(old(router)@, request@) ==> {
            let seen = released(old(router)@, request@);
            &&& final(router)@.finalizing == seen.finalizing
            &&& final(router)@.prefixes == seen.prefixes
            &&& final(router)@.system_prompt == seen.system_prompt
            &&& final(router)@.pattern == seen.pattern
        },
{
}

/// An answer that does not declare completion goes to the client as it came.
/// One that does gives the capable model final control of the session, after
/// the completion as it came; without a session it is an error.
pub proof fn law_settled_turn(
    router: &mut PlanExecuteFinalize,
    request: Request,
    served: ModelId,
    turn: GatedTurn,
    result: Result<TurnVerdict, LibsyError>,
)
    requires
        call_ensures(PlanExecuteFinalize::settle_turn, (router, request, served, turn), result),
    ensures
        ({
            let complete = declares_completion(old(router)@.pattern, turn.agg);
            match result {
                Ok(TurnVerdict::Answered(outcome)) => {
                    &&& !complete
                    &&& final(router)@ == old(router)@
                    &&& outcome matches RoutingOutcome::Answered {
                        model,
                        request: answered,
                        response,
                    }
                    &&& model == served
                    &&& answered == request
                    &&& response.metadata == turn.metadata
                    &&& response.llm_response == match turn.events {
                        Some(events) => LlmResponse::Stream(events),
                        None => LlmResponse::Agg(turn.agg),
                    }
                },
                Ok(TurnVerdict::Finalize { request: finalized, completion, evidence }) => {
                    &&& complete
                    &&& request.identity is Some
                    &&& control_taken(old(router)@, request.identity->0.key@, final(router)@)
                    &&& finalized == request
                    &&& completion == turn.agg
                    &&& json_of(evidence) == finalize_evidence()
                },
                Err(error) => {
                    &&& complete
                    &&& request.identity is None
                    &&& final(router)@ == old(router)@
                    &&& error.says("plan_execute_finalize requires a session identity"@)
                },
            }
        }),
{
}

/// A request goes to the first of the models.
pub proof fn law_route_first(
    models: &[ModelId],
    request: Request,
    phase: &str,
    result: Result<RoutingOutcome, LibsyError>,
)
    requires
        call_ensures(route_first, (models, request, phase), result),
    ensures
        routed_first(result, models_view(models@), request@, phase@),
{
}

} // verus!
