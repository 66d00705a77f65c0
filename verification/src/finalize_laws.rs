//! What the plan, execute and finalize router keeps, restores and routes, told
//! from its tables and the request.

use crate::blocks::message_mutates;
use crate::conversation_laws::law_message_mutates;
use crate::error::LibsyError;
use crate::json::{json_list, Json};
use crate::plan_execute_finalize::{
    any_mutates, begins_with, both_prompts, configured, context_of, control_taken, finalize_config_fault,
    finalize_evidence, finalize_routed, finalizer_request, in_final_control, models_view,
    plan_routed, prefix_kept, prefix_of, released, restored, routed_first, within_bounds,
    FinalizeStep, FinalizeView, PlanExecuteFinalizeConfig, PlannerCheckpoint, PrefixView,
    MAX_SESSION_STATE,
};
use crate::protocol::{
    messages_view, BlockView, MessageView, ModelId, RequestView, Role, RoutingOutcome,
};
use crate::replay::with_prompt;
use crate::text::{blank, trimmed};
use vstd::prelude::*;

verus! {

/// A configuration is refused where a prompt is blank or the pattern is empty;
/// of several faults the first is told.
pub proof fn law_finalizer_configuration(config: PlanExecuteFinalizeConfig)
    ensures
        ({
            let fault = finalize_config_fault(config);
            let unplanned = blank(config.planning_prompt@);
            let unprompted = blank(config.finalizer_prompt@);
            let unmatched = config.terminal_pattern@.len() == 0;
            &&& fault is None <==> !unplanned && !unprompted && !unmatched
            &&& unplanned ==> fault == Some("planning_prompt must not be empty"@)
            &&& !unplanned && unprompted ==> fault == Some("finalizer_prompt must not be empty"@)
            &&& !unplanned && !unprompted && unmatched ==> fault == Some(
                "terminal_pattern must not be empty"@,
            )
        }),
{
}

/// A router starts with what it is configured with and without sessions. The
/// finalizer's system prompt is the planner's prompt, an empty line and its
/// own, both trimmed.
pub proof fn law_configured(config: PlanExecuteFinalizeConfig, pattern: regex::Regex)
    ensures
        ({
            let router = configured(config, pattern);
            &&& router.planning_prompt == config.planning_prompt@
            &&& router.finalizer_prompt == config.finalizer_prompt@
            &&& router.system_prompt == trimmed(config.planning_prompt@).push('\n').push('\n')
                + trimmed(config.finalizer_prompt@)
            &&& router.pattern == pattern
            &&& forall|id: Seq<char>| !(#[trigger] router.executing.contains(id))
            &&& forall|id: Seq<char>| !(#[trigger] router.finalizing.contains(id))
            &&& forall|id: Seq<char>| !(#[trigger] router.prefixes.contains_key(id))
        }),
{
    law_both_prompts(config.planning_prompt@, config.finalizer_prompt@);
}

/// The finalizer's system prompt is the planner's prompt, an empty line and its
/// own, both trimmed.
pub proof fn law_both_prompts(planning: Seq<char>, finalizer: Seq<char>)
    ensures
        both_prompts(planning, finalizer) == trimmed(planning).push('\n').push('\n') + trimmed(
            finalizer,
        ),
{
    reveal_strlit("\n\n");
    assert(both_prompts(planning, finalizer) =~= trimmed(planning).push('\n').push('\n') + trimmed(
        finalizer,
    ));
}

/// A router keeps something of up to 4096 sessions.
pub proof fn law_finalizer_capacity(router: FinalizeView)
    requires
        within_bounds(router),
    ensures
        router.finalizing.len() <= 4096,
        router.prefixes.len() <= 4096,
        MAX_SESSION_STATE == 4096,
{
}

/// A request is under final control where its session is, and only there.
pub proof fn law_final_control(router: FinalizeView, request: RequestView)
    ensures
        in_final_control(router, request) <==> request.identity is Some
            && router.finalizing.contains(request.identity->0),
{
}

/// The last request of a session releases the session's final control and kept
/// conversation; no other request releases any, and nothing else changes.
pub proof fn law_released(router: FinalizeView, request: RequestView)
    ensures
        ({
            let after = released(router, request);
            &&& after.planning_prompt == router.planning_prompt
            &&& after.finalizer_prompt == router.finalizer_prompt
            &&& after.system_prompt == router.system_prompt
            &&& after.pattern == router.pattern
            &&& after.executing == router.executing
            &&& if request.identity is Some && request.is_final() {
                &&& after.finalizing == router.finalizing.remove(request.identity->0)
                &&& after.prefixes == router.prefixes.remove(request.identity->0)
            } else {
                after.finalizing == router.finalizing && after.prefixes == router.prefixes
            }
        }),
{
}

/// Final control of a session is added to what the router keeps; where it keeps
/// 4096 others, one of them leaves, with its conversation. Nothing else
/// changes.
pub proof fn law_control_is_taken(before: FinalizeView, id: Seq<char>, after: FinalizeView)
    requires
        control_taken(before, id, after),
    ensures
        after.planning_prompt == before.planning_prompt,
        after.finalizer_prompt == before.finalizer_prompt,
        after.system_prompt == before.system_prompt,
        after.pattern == before.pattern,
        after.executing == before.executing,
        after.finalizing.contains(id),
        before.finalizing.contains(id) || before.finalizing.len() < 4096 ==> after.finalizing
            == before.finalizing.insert(id) && after.prefixes == before.prefixes,
        !before.finalizing.contains(id) && before.finalizing.len() >= 4096 ==> exists|
            evicted: Seq<char>,
        | #[trigger]
            before.finalizing.contains(evicted) && after.finalizing == before.finalizing.remove(
                evicted,
            ).insert(id) && after.prefixes == before.prefixes.remove(evicted),
{
}

/// Messages edit where a block of one of them is a call that does.
pub proof fn law_any_mutates(messages: Seq<MessageView>)
    ensures
        any_mutates(messages) <==> (exists|i: int, j: int|
            0 <= i < messages.len() && 0 <= j < messages[i].content.len() && (
            #[trigger] messages[i].content[j] matches BlockView::ToolCall(call)
                && call.mutating)),
{
    if any_mutates(messages) {
        let i = choose|i: int|
            0 <= i < messages.len() && message_mutates(#[trigger] messages[i]);
        law_message_mutates(messages[i]);
        let j = choose|j: int|
            0 <= j < messages[i].content.len() && (#[trigger] messages[i].content[j] matches
                BlockView::ToolCall(call) && call.mutating);
        assert(messages[i].content[j] matches BlockView::ToolCall(call) && call.mutating);
    }
    if exists|i: int, j: int|
        0 <= i < messages.len() && 0 <= j < messages[i].content.len() && (
        #[trigger] messages[i].content[j] matches BlockView::ToolCall(call) && call.mutating) {
        let (i, j) = choose|i: int, j: int|
            0 <= i < messages.len() && 0 <= j < messages[i].content.len() && (
            #[trigger] messages[i].content[j] matches BlockView::ToolCall(call)
                && call.mutating);
        law_message_mutates(messages[i]);
    }
}

/// A conversation is kept for a session where none is yet and the request's
/// edits; it is the request's, in its messages and in its preserved OpenAI
/// Responses body. Where 4096 are kept, one of them leaves. Nothing else
/// changes.
pub proof fn law_conversation_is_kept(
    before: FinalizeView,
    request: RequestView,
    after: FinalizeView,
)
    requires
        prefix_kept(before, request, after),
    ensures
        after.planning_prompt == before.planning_prompt,
        after.finalizer_prompt == before.finalizer_prompt,
        after.system_prompt == before.system_prompt,
        after.pattern == before.pattern,
        after.executing == before.executing,
        after.finalizing == before.finalizing,
        ({
            let kept = PrefixView {
                messages: request.messages,
                responses_input: request.responses_input(),
            };
            let new = request.identity is Some && !before.prefixes.contains_key(
                request.identity->0,
            ) && any_mutates(request.messages);
            &&& !new ==> after.prefixes == before.prefixes
            &&& new && before.prefixes.len() < 4096 ==> after.prefixes == before.prefixes.insert(
                request.identity->0,
                kept,
            )
            &&& new && before.prefixes.len() >= 4096 ==> exists|evicted: Seq<char>| #[trigger]
                before.prefixes.contains_key(evicted) && after.prefixes == before.prefixes.remove(
                    evicted,
                ).insert(request.identity->0, kept)
        }),
{
}

/// What is kept of a request is its conversation, in its messages and in its
/// preserved OpenAI Responses body, and a kept conversation holds that.
pub proof fn law_kept_conversation(request: RequestView, kept: PlannerCheckpoint)
    ensures
        prefix_of(request).messages == request.messages,
        prefix_of(request).responses_input == request.responses_input(),
        kept@.messages == messages_view(kept.messages@),
        kept@.responses_input is Some == kept.responses_input is Some,
        kept.responses_input matches Some(input) ==> kept@.responses_input == Some(
            json_list(input@),
        ),
{
}

/// A request begins with a kept conversation where that is not empty and is a
/// prefix of the request's: of its items where both have an OpenAI Responses
/// conversation, of its messages otherwise.
pub proof fn law_begins_with(request: RequestView, prefix: PrefixView)
    ensures
        begins_with(request, prefix) <==> if prefix.responses_input is Some
            && request.responses_input() is Some {
            prefix.responses_input->0.len() > 0 && prefix.responses_input->0.is_prefix_of(
                request.responses_input()->0,
            )
        } else {
            prefix.messages.len() > 0 && prefix.messages.is_prefix_of(request.messages)
        },
{
}

/// A request that lost the conversation with which its session's execution
/// began gets it back: the kept messages stand before all of its own and, where
/// both have an OpenAI Responses conversation, the kept items before all of its
/// own. Whether it lost it is told by the items where both have some, and by
/// the messages otherwise. Nothing else of the request changes.
pub proof fn law_context(
    router: FinalizeView,
    request: RequestView,
    id: Seq<char>,
    prefix: PrefixView,
)
    requires
        request.identity == Some(id),
        if router.prefixes.contains_key(id) {
            prefix == router.prefixes[id]
        } else {
            any_mutates(request.messages) && prefix.messages == request.messages
                && prefix.responses_input == request.responses_input()
        },
    ensures
        ({
            let context = context_of(router, request);
            let there = if prefix.responses_input is Some && request.responses_input() is Some {
                prefix.responses_input->0.len() > 0 && prefix.responses_input->0.is_prefix_of(
                    request.responses_input()->0,
                )
            } else {
                prefix.messages.len() > 0 && prefix.messages.is_prefix_of(request.messages)
            };
            if there {
                context == request
            } else {
                &&& context.messages == prefix.messages + request.messages
                &&& context.responses_input() == if prefix.responses_input is Some
                    && request.responses_input() is Some {
                    Some(prefix.responses_input->0 + request.responses_input()->0)
                } else {
                    request.responses_input()
                }
                &&& prefix.responses_input is Some && request.responses_input() is Some
                    ==> context.requests.responses == Some(
                    Json::Object(
                        request.requests.responses->0->Object_0.insert(
                            "input"@,
                            Json::List(prefix.responses_input->0 + request.responses_input()->0),
                        ),
                    ),
                )
                &&& !(prefix.responses_input is Some && request.responses_input() is Some)
                    ==> context.requests.responses == request.requests.responses
                &&& context.requests.others == request.requests.others
                &&& context.model == request.model
                &&& context.instructions == request.instructions
                &&& context.stream == request.stream
                &&& context.tool_choice == request.tool_choice
                &&& context.metadata == request.metadata
                &&& context.identity == request.identity
                &&& context.detail == request.detail
                &&& context.llm_detail == request.llm_detail
            }
        }),
{
    if prefix.responses_input is Some && request.responses_input() is Some {
        let both = prefix.responses_input->0 + request.responses_input()->0;
        assert(restored(request, prefix).responses_input() == Some(both));
    }
}

/// Without a session, and before the first edit of one, the context of a
/// request is the request.
pub proof fn law_context_without_a_conversation(router: FinalizeView, request: RequestView)
    requires
        request.identity matches Some(id) ==> !router.prefixes.contains_key(id) && !any_mutates(
            request.messages,
        ),
    ensures
        context_of(router, request) == request,
{
}

/// To restore a conversation puts the kept messages before all of the
/// request's, and the kept items before all of the request's where both have
/// some. Nothing of the request is lost, and nothing else changes.
pub proof fn law_restored(request: RequestView, prefix: PrefixView)
    ensures
        ({
            let whole = restored(request, prefix);
            &&& whole.messages == prefix.messages + request.messages
            &&& match (prefix.responses_input, request.responses_input()) {
                (Some(kept), Some(items)) => {
                    &&& whole.responses_input() == Some(kept + items)
                    &&& items.is_suffix_of(whole.responses_input()->0)
                    &&& kept.is_prefix_of(whole.responses_input()->0)
                },
                _ => whole.requests == request.requests,
            }
            &&& whole.requests.others == request.requests.others
            &&& whole.model == request.model
            &&& whole.instructions == request.instructions
            &&& whole.stream == request.stream
            &&& whole.tool_choice == request.tool_choice
            &&& whole.metadata == request.metadata
            &&& whole.identity == request.identity
            &&& whole.detail == request.detail
            &&& whole.llm_detail == request.llm_detail
        }),
{
    if let (Some(kept), Some(items)) = (prefix.responses_input, request.responses_input()) {
        let all = kept + items;
        assert(all.subrange(all.len() - items.len(), all.len() as int) =~= items);
        assert(all.subrange(0, kept.len() as int) =~= kept);
        assert(restored(request, prefix).responses_input() == Some(all));
    }
}

/// The finalizer's first request ends with the finalizer's prompt and is
/// otherwise prompted as every request of the finalizer is. Where the preserved
/// conversation was not extended, no preserved body stays.
pub proof fn law_finalizer_request(
    router: FinalizeView,
    opened: RequestView,
    exact_extended: bool,
)
    ensures
        ({
            let finalizer = finalizer_request(router, opened, exact_extended);
            let prompted = with_prompt(opened, router.system_prompt);
            let words = MessageView {
                role: Role::User,
                content: seq![BlockView::Text { text: router.finalizer_prompt }],
            };
            &&& finalizer.messages == opened.messages.push(words)
            &&& finalizer.instructions == prompted.instructions
            &&& exact_extended ==> finalizer.requests == prompted.requests
            &&& !exact_extended ==> finalizer.requests.responses is None
                && finalizer.requests.others.len() == 0
            &&& finalizer.model == opened.model
            &&& finalizer.stream == opened.stream
            &&& finalizer.tool_choice == opened.tool_choice
            &&& finalizer.metadata == opened.metadata
            &&& finalizer.identity == opened.identity
            &&& finalizer.detail == opened.detail
            &&& finalizer.llm_detail == opened.llm_detail
        }),
{
}

/// The names of models are theirs, in order.
pub proof fn law_models(models: Seq<ModelId>)
    ensures
        models_view(models).len() == models.len(),
        forall|i: int|
            0 <= i < models.len() ==> #[trigger] models_view(models)[i] == models[i].name@,
{
}

/// A request goes to the first model, with all others in order as fallbacks;
/// without a model it is the error that names the phase.
pub proof fn law_routed_first(
    result: Result<RoutingOutcome, LibsyError>,
    models: Seq<Seq<char>>,
    request: RequestView,
    phase: Seq<char>,
)
    ensures
        routed_first(result, models, request, phase) <==> match result {
            Err(error) => models.len() == 0 && error.says(
                "no models available for "@ + phase + " phase"@,
            ),
            Ok(RoutingOutcome::RouteTo { target, fallbacks, request: routed }) => {
                &&& models.len() > 0
                &&& target.name@ == models[0]
                &&& models_view(fallbacks@) == models.subrange(1, models.len() as int)
                &&& routed@ == request
            },
            Ok(RoutingOutcome::Answered { .. }) => false,
        },
{
    if models.len() > 0 {
        assert(models.skip(1) =~= models.subrange(1, models.len() as int));
    }
}

/// A request to plan, or to finalize, is routed to the first model as such, or
/// is the error that names that phase.
pub proof fn law_step_is_routed(
    result: Result<FinalizeStep, LibsyError>,
    models: Seq<Seq<char>>,
    request: RequestView,
)
    ensures
        plan_routed(result, models, request) <==> match result {
            Ok(FinalizeStep::Plan(outcome)) => routed_first(Ok(outcome), models, request, "plan"@),
            Err(error) => models.len() == 0 && error.says(
                "no models available for "@ + "plan"@ + " phase"@,
            ),
            _ => false,
        },
        finalize_routed(result, models, request) <==> match result {
            Ok(FinalizeStep::Finalize(outcome)) => routed_first(
                Ok(outcome),
                models,
                request,
                "finalize"@,
            ),
            Err(error) => models.len() == 0 && error.says(
                "no models available for "@ + "finalize"@ + " phase"@,
            ),
            _ => false,
        },
{
    if let Err(error) = result {
        law_routed_first(Err(error), models, request, "plan"@);
        law_routed_first(Err(error), models, request, "finalize"@);
    }
}

/// The note that a router leaves where it gives final control back names the
/// router and the verdict.
pub proof fn law_evidence()
    ensures
        finalize_evidence() matches Json::Object(members) && {
            &&& members.dom() =~= set!["source"@, "verdict"@]
            &&& members["source"@] == Json::Text("plan_execute_finalize"@)
            &&& members["verdict"@] == Json::Text("finalize"@)
        },
{
    reveal_strlit("source");
    reveal_strlit("verdict");
    assert("source"@.len() != "verdict"@.len());
}

} // verus!
