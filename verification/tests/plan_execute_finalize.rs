use libsy::error::LibsyError;
use libsy::pattern::parses;
use libsy::plan_execute::ToolSignals;
use libsy::plan_execute_finalize::{
    planner_checkpoint, request_starts_with, restore_planner_prefix, route_first, FinalizeStep,
    PlanExecuteFinalize, PlanExecuteFinalizeConfig, TurnVerdict, EMPTY_COMPLETION,
    MAX_SESSION_STATE,
};
use libsy::prompts::{
    DEFAULT_FINALIZER_PROMPT, DEFAULT_FINALIZER_TERMINAL_PATTERN, DEFAULT_PLANNING_PROMPT,
};
use libsy::protocol::{
    AggLlmResponse, ContentBlock, LlmRequest, LlmResponse, Message, Metadata, ModelId, Request,
    ResponseOutput, Role, RoutingIdentity, RoutingOutcome, StopReason, ToolCall, ToolChoice,
    ToolResult,
};
use libsy::turn::{visible_text, GatedTurn};
use serde_json::Value;

fn text(text: &str) -> Value {
    Value::String(text.to_string())
}

fn object(members: &[(&str, Value)]) -> Value {
    let mut map = serde_json::Map::new();
    for (key, value) in members {
        map.insert(key.to_string(), value.clone());
    }
    Value::Object(map)
}

fn model(name: &str) -> ModelId {
    ModelId { name: name.to_string() }
}

fn algorithm() -> PlanExecuteFinalize {
    match PlanExecuteFinalize::new(PlanExecuteFinalizeConfig::default()) {
        Ok(router) => router,
        Err(_) => panic!("default config is valid"),
    }
}

fn request(messages: Vec<Message>) -> Request {
    Request {
        llm_request: LlmRequest {
            model: Some("switchyard/finalize".to_string()),
            messages,
            ..LlmRequest::default()
        },
        metadata: Some(Metadata {
            session_id: Some("task-1".to_string()),
            ..Metadata::default()
        }),
        identity: Some(RoutingIdentity { key: "task-1".to_string() }),
        ..Request::default()
    }
}

fn last(mut request: Request) -> Request {
    request.metadata.as_mut().expect("metadata").session_final = Some(true);
    request
}

fn call(id: &str, name: &str, arguments: Value, mutating: bool) -> Message {
    Message {
        role: Role::Assistant,
        content: vec![ContentBlock::ToolCall(ToolCall {
            id: id.to_string(),
            name: name.to_string(),
            arguments,
            mutating,
        })],
    }
}

fn result(id: &str, output: &str) -> Message {
    Message {
        role: Role::User,
        content: vec![ContentBlock::ToolResult(ToolResult {
            tool_call_id: id.to_string(),
            content: vec![ContentBlock::Text { text: output.to_string() }],
            is_error: Some(false),
        })],
    }
}

fn edit_and_result() -> Vec<Message> {
    vec![
        call("edit-1", "apply_patch", object(&[("patch", text("change"))]), true),
        result("edit-1", "done"),
    ]
}

fn edited() -> Request {
    request([vec![Message::text(Role::User, "fix it")], edit_and_result()].concat())
}

fn reply(words: &str) -> AggLlmResponse {
    AggLlmResponse {
        outputs: vec![ResponseOutput {
            role: Role::Assistant,
            content: vec![ContentBlock::Text { text: words.to_string() }],
            stop_reason: None,
        }],
        ..AggLlmResponse::default()
    }
}

fn signals_of(request: &Request) -> ToolSignals {
    let mut edit_count: u64 = 0;
    for message in &request.llm_request.messages {
        for block in &message.content {
            if let ContentBlock::ToolCall(call) = block {
                if call.mutating {
                    edit_count += 1;
                }
            }
        }
    }
    ToolSignals { edit_count, write_count: 0 }
}

fn target_of(outcome: RoutingOutcome) -> (ModelId, Request) {
    match outcome {
        RoutingOutcome::RouteTo { target, request, .. } => (target, request),
        RoutingOutcome::Answered { .. } => panic!("the request should be routed"),
    }
}

/// Routes a request where every model answers the same, and logs the calls.
fn drive(
    router: &mut PlanExecuteFinalize,
    request: Request,
    words: &str,
) -> Result<(ModelId, Vec<(ModelId, Request)>), LibsyError> {
    let capable = [model("model/sol")];
    let efficient = [model("model/luna")];
    let signals = signals_of(&request);
    let mut calls = Vec::new();
    let (request, selected) = match router.route(request, signals, &capable, &efficient)? {
        FinalizeStep::Plan(outcome) | FinalizeStep::Finalize(outcome) => {
            let (target, request) = target_of(outcome);
            calls.push((target.clone(), request));
            return Ok((target, calls));
        }
        FinalizeStep::Execute { request, models, selected } => {
            assert_eq!(models, efficient);
            (request, selected)
        }
    };
    calls.push((selected.clone(), request.clone()));
    let turn = GatedTurn::complete(reply(words), None);
    match router.settle_turn(request, selected, turn)? {
        TurnVerdict::Answered(RoutingOutcome::Answered { model, .. }) => Ok((model, calls)),
        TurnVerdict::Answered(_) => panic!("an answer is an answer"),
        TurnVerdict::Finalize { request, completion, evidence } => {
            assert_eq!(
                evidence,
                object(&[
                    ("source", text("plan_execute_finalize")),
                    ("verdict", text("finalize")),
                ])
            );
            let echo = visible_text(&completion).unwrap_or(EMPTY_COMPLETION.to_string());
            let opened =
                router.open_finalizer_request(&request, Message::text(Role::Assistant, &echo));
            let finalizer = router.close_finalizer_request(opened, false);
            let (target, request) = target_of(route_first(&capable, finalizer, "finalize")?);
            calls.push((target.clone(), request));
            Ok((target, calls))
        }
    }
}

fn texts(message: &Message) -> Vec<String> {
    message
        .content
        .iter()
        .filter_map(|block| match block {
            ContentBlock::Text { text } => Some(text.clone()),
            _ => None,
        })
        .collect()
}

#[test]
fn terminal_executor_turn_hands_tools_to_capable_finalizer() {
    let (selected, calls) =
        drive(&mut algorithm(), edited(), "Completed the implementation").expect("finalization routes");

    assert_eq!(selected.name, "model/sol");
    assert_eq!(
        calls.iter().map(|(model, _)| model.name.as_str()).collect::<Vec<_>>(),
        vec!["model/luna", "model/sol"]
    );
    let finalizer = &calls[1].1.llm_request;
    assert!(finalizer.tool_choice != Some(ToolChoice::Forbidden));
    assert!(finalizer
        .messages
        .iter()
        .map(|message| texts(message).join("\n"))
        .any(|text| text.contains("Completed the implementation")));
    assert!(finalizer
        .instructions
        .first()
        .and_then(|block| block.content.first())
        .is_some_and(
            |block| matches!(block, ContentBlock::Text { text } if text.contains("live repository"))
        ));
}

#[test]
fn finalizer_keeps_control_after_a_tool_call() {
    let mut algorithm = algorithm();
    drive(&mut algorithm, edited(), "Completed the implementation").expect("finalization starts");

    let finalizer_tool = call(
        "test-1",
        "exec_command",
        object(&[("cmd", text("git diff && cargo test"))]),
        false,
    );
    let continued = request(
        [
            vec![Message::text(Role::User, "fix it")],
            edit_and_result(),
            vec![finalizer_tool, result("test-1", "tests pass")],
        ]
        .concat(),
    );
    let (selected, calls) =
        drive(&mut algorithm, continued, "done").expect("finalization continues");

    assert_eq!(selected.name, "model/sol");
    assert_eq!(calls[0].0.name, "model/sol");
}

#[test]
fn nonterminal_executor_turn_is_replayed_without_finalizing() {
    let (selected, calls) =
        drive(&mut algorithm(), edited(), "I am still testing").expect("execution routes");

    assert_eq!(selected.name, "model/luna");
    assert_eq!(calls.len(), 1);
}

fn fault(config: PlanExecuteFinalizeConfig) -> Option<String> {
    match PlanExecuteFinalize::new(config) {
        Ok(_) => None,
        Err(LibsyError::AlgorithmError { message }) => Some(message),
        Err(_) => panic!("a configuration is no call"),
    }
}

#[test]
fn finalizer_configuration_faults_are_named() {
    let config = PlanExecuteFinalizeConfig::default();
    assert_eq!(fault(config.clone()), None);
    assert_eq!(
        fault(PlanExecuteFinalizeConfig { planning_prompt: " \n".to_string(), ..config.clone() }),
        Some("planning_prompt must not be empty".to_string())
    );
    assert_eq!(
        fault(PlanExecuteFinalizeConfig { finalizer_prompt: "\t".to_string(), ..config.clone() }),
        Some("finalizer_prompt must not be empty".to_string())
    );
    assert_eq!(
        fault(PlanExecuteFinalizeConfig { terminal_pattern: String::new(), ..config.clone() }),
        Some("terminal_pattern must not be empty".to_string())
    );
    let invalid = fault(PlanExecuteFinalizeConfig { terminal_pattern: "(".to_string(), ..config });
    let words = regex::Regex::new("(").expect_err("unbalanced").to_string();
    assert_eq!(invalid, Some(format!("terminal_pattern is invalid: {words}")));
}

#[test]
fn a_pattern_parses_or_not_whatever_its_size() {
    assert!(parses("done|fertig"));
    assert!(parses(DEFAULT_FINALIZER_TERMINAL_PATTERN));
    assert!(!parses("("));
    let big = r"\w{1000}{1000}";
    assert!(parses(big));
    let config = PlanExecuteFinalizeConfig {
        terminal_pattern: big.to_string(),
        ..PlanExecuteFinalizeConfig::default()
    };
    let words = regex::Regex::new(big).expect_err("too big").to_string();
    assert_eq!(fault(config), Some(format!("terminal_pattern is invalid: {words}")));
}

#[test]
fn default_finalizer_configuration_is_trimmed() {
    let config = PlanExecuteFinalizeConfig::default();
    assert_eq!(config.planning_prompt, DEFAULT_PLANNING_PROMPT.trim());
    assert_eq!(config.finalizer_prompt, DEFAULT_FINALIZER_PROMPT.trim());
    assert_eq!(config.terminal_pattern, DEFAULT_FINALIZER_TERMINAL_PATTERN);
    assert_eq!(algorithm().name(), "plan_execute_finalize");
    assert_eq!(algorithm().finalizer_prompt(), DEFAULT_FINALIZER_PROMPT.trim());
}

#[test]
fn the_default_pattern_tells_completions() {
    for (words, model) in [
        ("Done", "model/sol"),
        ("  ## **Implemented** the change", "model/sol"),
        ("erledigt.", "model/sol"),
        ("FERTIG", "model/sol"),
        ("Not done yet", "model/luna"),
        ("Doneness is near", "model/luna"),
        ("", "model/luna"),
    ] {
        let (selected, _) = drive(&mut algorithm(), edited(), words).expect("routes");
        assert_eq!(selected.name, model, "{words}");
    }
}

#[test]
fn a_turn_that_uses_tools_is_no_completion() {
    let mut router = algorithm();
    let mut turn = reply("Done");
    turn.outputs[0].stop_reason = Some(StopReason::ToolUse);
    let verdict = router
        .settle_turn(edited(), model("model/luna"), GatedTurn::complete(turn, None))
        .expect("settles");
    match verdict {
        TurnVerdict::Answered(RoutingOutcome::Answered { model, request, response }) => {
            assert_eq!(model.name, "model/luna");
            assert_eq!(request, edited());
            match response.llm_response {
                LlmResponse::Agg(agg) => assert_eq!(visible_text(&agg), Some("Done".to_string())),
                _ => panic!("the answer was complete"),
            }
        }
        _ => panic!("the turn goes to the client"),
    }
    assert!(!router.is_finalizing(&edited()));
}

#[test]
fn a_planning_request_goes_to_the_capable_model() {
    let mut asked = request(vec![Message::text(Role::User, "fix it")]);
    asked.llm_request.preservation.requests.responses = Some(Value::Null);
    let (selected, calls) = drive(&mut algorithm(), asked.clone(), "Done").expect("routes");
    assert_eq!(selected.name, "model/sol");
    let planned = &calls[0].1.llm_request;
    assert_eq!(planned.messages, asked.llm_request.messages);
    assert_eq!(planned.preservation.requests.responses, None);
    assert_eq!(planned.instructions.len(), 1);
    assert_eq!(
        planned.instructions[0].content,
        vec![ContentBlock::Text { text: DEFAULT_PLANNING_PROMPT.trim().to_string() }]
    );
}

#[test]
fn the_last_request_ends_final_control() {
    let mut router = algorithm();
    drive(&mut router, edited(), "Done").expect("finalization starts");
    assert!(router.is_finalizing(&edited()));
    let (selected, _) = drive(&mut router, last(edited()), "Done").expect("finalization ends");
    assert_eq!(selected.name, "model/sol");
    assert!(!router.is_finalizing(&edited()));
}

#[test]
fn final_control_needs_a_session() {
    let mut anonymous = edited();
    anonymous.identity = None;
    let missing = Err(LibsyError::AlgorithmError {
        message: "plan_execute_finalize requires a session identity".to_string(),
    });
    let mut router = algorithm();
    assert_eq!(router.begin_finalizing(&anonymous), missing);
    assert_eq!(drive(&mut router, anonymous.clone(), "Done").map(|_| ()), missing);
    assert!(!router.is_finalizing(&anonymous));
}

#[test]
fn a_phase_without_models_is_an_error() {
    let error = |message: &str| LibsyError::AlgorithmError { message: message.to_string() };
    let capable = [model("model/sol")];
    let mut router = algorithm();
    let asked = request(vec![Message::text(Role::User, "fix it")]);
    let no_edit = signals_of(&asked);
    assert_eq!(
        router.route(asked, no_edit, &[], &capable).err(),
        Some(error("no models available for plan phase"))
    );
    let signals = signals_of(&edited());
    assert_eq!(
        router.route(edited(), signals, &capable, &[]).err(),
        Some(error("no models available for category Efficient"))
    );
    router.begin_finalizing(&edited()).expect("a session");
    assert_eq!(
        router.route(edited(), signals, &[], &capable).err(),
        Some(error("no models available for finalize phase"))
    );
}

#[test]
fn the_other_models_are_fallbacks() {
    let models = [model("a"), model("b"), model("c")];
    match route_first(&models, edited(), "plan") {
        Ok(RoutingOutcome::RouteTo { target, fallbacks, request }) => {
            assert_eq!(target, model("a"));
            assert_eq!(fallbacks, vec![model("b"), model("c")]);
            assert_eq!(request, edited());
        }
        _ => panic!("the first model is there"),
    }
}

fn with_input(mut request: Request, items: Vec<Value>) -> Request {
    request.llm_request.preservation.requests.responses =
        Some(object(&[("input", Value::Array(items))]));
    request
}

fn input_of(request: &Request) -> Option<Vec<Value>> {
    libsy::replay::exact_responses_input(request).cloned()
}

#[test]
fn the_first_edited_conversation_is_restored() {
    let mut router = algorithm();
    let first = with_input(edited(), vec![text("a"), text("b")]);
    assert_eq!(router.execution_context(&first), first);

    let compacted =
        with_input(request(vec![Message::text(Role::User, "summary")]), vec![text("c")]);
    let context = router.execution_context(&compacted);
    let expected = [
        edited().llm_request.messages,
        vec![Message::text(Role::User, "summary")],
    ]
    .concat();
    assert_eq!(context.llm_request.messages, expected);
    assert_eq!(input_of(&context), Some(vec![text("a"), text("b"), text("c")]));
    assert_eq!(router.execution_context(&context), context);

    let longer = with_input(edited(), vec![text("a"), text("b"), text("d")]);
    assert_eq!(router.execution_context(&longer), longer);

    router.is_finalizing(&last(compacted.clone()));
    assert_eq!(router.execution_context(&compacted), compacted);
}

#[test]
fn without_an_edit_or_a_session_nothing_is_restored() {
    let mut router = algorithm();
    let plain = request(vec![Message::text(Role::User, "hello")]);
    assert_eq!(router.execution_context(&plain), plain);
    let other = request(vec![Message::text(Role::User, "other")]);
    assert_eq!(router.execution_context(&other), other);
    let mut anonymous = edited();
    anonymous.identity = None;
    assert_eq!(router.execution_context(&anonymous), anonymous);
    assert_eq!(router.execution_context(&other), other);
}

#[test]
fn a_prefix_is_told_by_the_responses_conversation_first() {
    let prefix = planner_checkpoint(&with_input(edited(), vec![text("a")]));
    let same_messages = with_input(edited(), vec![text("b")]);
    assert!(!request_starts_with(&prefix, &same_messages));
    let same_items = with_input(request(Vec::new()), vec![text("a"), text("b")]);
    assert!(request_starts_with(&prefix, &same_items));
    assert!(request_starts_with(&prefix, &edited()));
    assert!(!request_starts_with(&prefix, &request(Vec::new())));
    let empty = planner_checkpoint(&with_input(edited(), Vec::new()));
    assert!(!request_starts_with(&empty, &same_messages));
    assert!(request_starts_with(&empty, &edited()));
    assert!(!request_starts_with(&planner_checkpoint(&request(Vec::new())), &edited()));
    let mut altered = edited();
    if let ContentBlock::ToolCall(call) = &mut altered.llm_request.messages[1].content[0] {
        call.arguments = object(&[("patch", text("another"))]);
    }
    assert!(!request_starts_with(&planner_checkpoint(&edited()), &altered));
}

#[test]
fn a_prefix_is_put_before_what_is_there() {
    let prefix = planner_checkpoint(&with_input(edited(), vec![text("a")]));
    let plain = request(vec![Message::text(Role::User, "summary")]);
    let restored = restore_planner_prefix(&prefix, &plain);
    assert_eq!(restored.llm_request.messages.len(), 4);
    assert_eq!(input_of(&restored), None);
    let bare = planner_checkpoint(&edited());
    let restored = restore_planner_prefix(&bare, &with_input(plain, vec![text("c")]));
    assert_eq!(input_of(&restored), Some(vec![text("c")]));
}

#[test]
fn the_finalizer_request_ends_with_the_finalizer_prompt() {
    let mut router = algorithm();
    let mut asked = with_input(edited(), vec![text("a")]);
    asked
        .llm_request
        .preservation
        .requests
        .others
        .push(("anthropic".to_string(), Value::Null));
    let echo = Message::text(Role::Assistant, "Done");
    let opened = router.open_finalizer_request(&asked, echo.clone());
    assert_eq!(opened.llm_request.messages.last(), Some(&echo));

    let extended = router.close_finalizer_request(opened.clone(), true);
    assert_eq!(
        extended.llm_request.messages.last(),
        Some(&Message::text(Role::User, DEFAULT_FINALIZER_PROMPT.trim()))
    );
    let system =
        format!("{}\n\n{}", DEFAULT_PLANNING_PROMPT.trim(), DEFAULT_FINALIZER_PROMPT.trim());
    assert_eq!(
        extended.llm_request.instructions[0].content,
        vec![ContentBlock::Text { text: system.clone() }]
    );
    assert_eq!(
        extended.llm_request.preservation.requests.responses,
        Some(object(&[("input", Value::Array(vec![text("a")])), ("instructions", text(&system))]))
    );
    assert!(extended.llm_request.preservation.requests.others.is_empty());

    let dropped = router.close_finalizer_request(opened, false);
    assert_eq!(dropped.llm_request.preservation.requests.responses, None);
    assert_eq!(dropped.llm_request.messages, extended.llm_request.messages);
}

#[test]
fn a_continuation_is_prompted_once() {
    let mut router = algorithm();
    let once = router.prepare_continuation(&edited());
    assert_eq!(once.llm_request.instructions.len(), 1);
    assert_eq!(once.llm_request.messages, edited().llm_request.messages);
    assert_eq!(router.prepare_continuation(&once), once);
}

#[test]
fn a_full_router_releases_one_session_for_a_new_one() {
    let mut router = algorithm();
    let session = |index: usize| {
        let mut request = edited();
        request.identity = Some(RoutingIdentity { key: format!("session-{index}") });
        request
    };
    for index in 0..MAX_SESSION_STATE + 1 {
        router.begin_finalizing(&session(index)).expect("a session");
    }
    assert!(router.is_finalizing(&session(MAX_SESSION_STATE)));
    let mut released = 0;
    for index in 0..MAX_SESSION_STATE {
        if !router.is_finalizing(&session(index)) {
            released += 1;
        }
    }
    assert_eq!(released, 1);
}

#[test]
fn final_control_and_context_are_kept_among_other_sessions() {
    let mut router = algorithm();
    drive(&mut router, edited(), "Done").expect("finalization starts");
    let summary = request(vec![Message::text(Role::User, "summary")]);
    let context = router.execution_context(&summary);
    for index in 0..10 {
        let mut other = edited();
        other.identity = Some(RoutingIdentity { key: format!("other-{index}") });
        drive(&mut router, other.clone(), "Done").expect("another session finalizes");
        drive(&mut router, last(other), "Done").expect("another session ends");
        assert!(router.is_finalizing(&summary));
        assert_eq!(router.execution_context(&summary), context);
    }
    let expected = [
        edited().llm_request.messages,
        vec![Message::text(Role::User, "summary")],
    ]
    .concat();
    assert_eq!(context.llm_request.messages, expected);
}
