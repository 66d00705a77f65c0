use libsy::compaction::{compact_responses_input, raw_item_call};
use libsy::error::LibsyError;
use libsy::plan_execute::{
    mutating_calls, mutation_call_ids, ExecutionTracker, Phase, PlanExecute, PlanExecuteConfig,
    RouteStep, ToolSignals, MAX_EXECUTING_SESSIONS,
};
use libsy::prompts::{DEFAULT_CHECKPOINT_PROMPT, DEFAULT_PLANNING_PROMPT};
use libsy::protocol::{
    AggLlmResponse, ContentBlock, InstructionBlock, LlmRequest, LlmResponse, Message, Metadata,
    ModelId, Request, Response, ResponseOutput, Role, RoutingIdentity, RoutingOutcome, ToolCall,
    ToolChoice, ToolResult,
};
use serde_json::Value;

fn text(text: &str) -> Value {
    Value::String(text.to_string())
}

fn object(members: &[(&str, Value)]) -> Value {
    let mut map = serde_json::Map::new();
    for (key, value) in members {
        map.insert(key.to_string(), value.clone());
    }
    Value::Object(map)
}

/// Stands for the tool signals: which calls edit or write files.
fn edits(name: &str, arguments: &Value) -> bool {
    match name {
        "apply_patch" | "write_file" => true,
        "exec_command" => match arguments.get("cmd").and_then(Value::as_str) {
            Some(cmd) => cmd.contains("write_text") || cmd.contains(" > "),
            None => false,
        },
        _ => false,
    }
}

fn model(name: &str) -> ModelId {
    ModelId { name: name.to_string() }
}

fn algorithm() -> PlanExecute {
    match PlanExecute::new(
        model("model/capable"),
        model("model/efficient"),
        PlanExecuteConfig::default(),
    ) {
        Ok(router) => router,
        Err(_) => panic!("default config should be valid"),
    }
}

fn checkpoint_algorithm(
    interval: u32,
    max_checkpoints: u32,
    max_turns: u32,
    max_turns_total: u32,
) -> PlanExecute {
    match PlanExecute::new(
        model("model/capable"),
        model("model/efficient"),
        PlanExecuteConfig {
            checkpoint_interval_turns: interval,
            max_checkpoints,
            max_checkpoint_turns: max_turns,
            max_checkpoint_turns_total: max_turns_total,
            ..PlanExecuteConfig::default()
        },
    ) {
        Ok(router) => router,
        Err(_) => panic!("checkpoint config should be valid"),
    }
}

fn request(messages: Vec<Message>, session_id: Option<&str>) -> Request {
    Request {
        llm_request: LlmRequest {
            model: Some("switchyard/plan-execute".to_string()),
            messages,
            ..LlmRequest::default()
        },
        metadata: session_id.map(|session_id| Metadata {
            session_id: Some(session_id.to_string()),
            ..Metadata::default()
        }),
        identity: session_id.map(|session_id| RoutingIdentity { key: session_id.to_string() }),
        ..Request::default()
    }
}

fn call(id: &str, name: &str, arguments: Value) -> ContentBlock {
    let mutating = edits(name, &arguments);
    ContentBlock::ToolCall(ToolCall {
        id: id.to_string(),
        name: name.to_string(),
        arguments,
        mutating,
    })
}

fn tool_call(name: &str, arguments: Value) -> Message {
    tool_call_with_id("call-1", name, arguments)
}

fn tool_call_with_id(id: &str, name: &str, arguments: Value) -> Message {
    Message { role: Role::Assistant, content: vec![call(id, name, arguments)] }
}

fn tool_result(call_id: &str, output: &str) -> Message {
    Message {
        role: Role::Tool,
        content: vec![ContentBlock::ToolResult(ToolResult {
            tool_call_id: call_id.to_string(),
            content: vec![ContentBlock::Text { text: output.to_string() }],
            is_error: Some(false),
        })],
    }
}

fn response_of(content: Vec<ContentBlock>) -> AggLlmResponse {
    AggLlmResponse {
        outputs: vec![ResponseOutput { role: Role::Assistant, content, stop_reason: None }],
        ..AggLlmResponse::default()
    }
}

fn text_response(text: &str) -> AggLlmResponse {
    response_of(vec![ContentBlock::Text { text: text.to_string() }])
}

fn model_tool_response(name: &str, arguments: Value, text: &str) -> AggLlmResponse {
    response_of(vec![
        ContentBlock::Text { text: text.to_string() },
        call("checkpoint-call", name, arguments),
    ])
}

fn signals_of(request: &Request) -> ToolSignals {
    let mut edit_count: u64 = 0;
    for message in &request.llm_request.messages {
        for block in &message.content {
            if let ContentBlock::ToolCall(call) = block {
                if call.mutating {
                    edit_count += 1;
                }
            }
        }
    }
    ToolSignals { edit_count, write_count: 0 }
}

fn verdicts(items: &[Value]) -> Vec<bool> {
    items
        .iter()
        .map(|item| match raw_item_call(item) {
            Some((name, arguments)) => edits(name, arguments.unwrap_or(&Value::Null)),
            None => false,
        })
        .collect()
}

fn verdicts_of(request: &Request) -> Vec<bool> {
    match libsy::replay::exact_responses_input(request) {
        Some(items) => verdicts(items),
        None => Vec::new(),
    }
}

fn routed(outcome: RoutingOutcome) -> (ModelId, Request) {
    match outcome {
        RoutingOutcome::RouteTo { target, fallbacks, request } => {
            assert!(fallbacks.is_empty());
            (target, request)
        }
        RoutingOutcome::Answered { .. } => panic!("routing should not answer"),
    }
}

fn route_and_capture(router: &mut PlanExecute, request: Request) -> (ModelId, Request) {
    let signals = signals_of(&request);
    match router.route(request, signals) {
        RouteStep::Execute(outcome) => routed(outcome),
        RouteStep::Plan(outcome) => routed(outcome),
        RouteStep::Checkpoint { .. } => panic!("no checkpoint is due"),
    }
}

fn drive_and_capture_calls(
    router: &mut PlanExecute,
    request: Request,
    capable_response: AggLlmResponse,
) -> (ModelId, Response, Vec<(ModelId, Request)>) {
    let signals = signals_of(&request);
    let mut calls = Vec::new();
    let (request, force_handoff) = match router.route(request, signals) {
        RouteStep::Checkpoint { request, force_handoff } => (request, force_handoff),
        _ => panic!("a checkpoint should be due"),
    };
    let verdicts = verdicts_of(&request);
    let inspected = router.checkpoint_request(&request, &verdicts, force_handoff);
    calls.push((router.capable().clone(), inspected.clone()));
    match router.settle_checkpoint(request, inspected, capable_response, None, force_handoff) {
        RoutingOutcome::Answered { model, response, .. } => (model, response, calls),
        RoutingOutcome::RouteTo { target, request, .. } => {
            calls.push((target.clone(), request));
            let reply = Response {
                llm_response: LlmResponse::Agg(text_response("efficient")),
                metadata: None,
            };
            (target, reply, calls)
        }
    }
}

fn planning_prompt() -> Vec<ContentBlock> {
    vec![ContentBlock::Text { text: DEFAULT_PLANNING_PROMPT.trim().to_string() }]
}

#[test]
fn initial_turn_uses_capable_model_with_planning_prefix() {
    let messages = vec![Message::text(Role::User, "fix the parser")];
    let (selected, routed) =
        route_and_capture(&mut algorithm(), request(messages.clone(), Some("task-1")));

    assert_eq!(selected.name, "model/capable");
    assert_eq!(routed.llm_request.messages, messages);
    assert_eq!(routed.llm_request.instructions.len(), 1);
    assert_eq!(routed.llm_request.instructions[0].role, Role::System);
    assert_eq!(routed.llm_request.instructions[0].content, planning_prompt());
}

#[test]
fn read_only_tool_calls_remain_in_planning() {
    let messages = vec![
        Message::text(Role::User, "fix the parser"),
        tool_call("exec_command", object(&[("cmd", text("rg parser crates"))])),
    ];

    let (selected, routed) = route_and_capture(&mut algorithm(), request(messages.clone(), None));

    assert_eq!(selected.name, "model/capable");
    assert_eq!(routed.llm_request.messages, messages);
    assert_eq!(routed.llm_request.instructions.len(), 1);
}

#[test]
fn first_edit_switches_to_efficient_and_keeps_the_trajectory() {
    let messages = vec![
        Message::text(Role::User, "fix the parser"),
        Message::text(Role::Assistant, "I will update the parser now."),
        tool_call("apply_patch", object(&[("patch", text("*** Begin Patch"))])),
    ];
    let mut input = request(messages.clone(), Some("task-2"));
    input.llm_request.instructions.push(InstructionBlock {
        role: Role::Developer,
        content: vec![ContentBlock::Text { text: "keep the public API stable".to_string() }],
    });

    let (selected, routed) = route_and_capture(&mut algorithm(), input);

    assert_eq!(selected.name, "model/efficient");
    assert_eq!(routed.llm_request.messages, messages);
    assert_eq!(routed.llm_request.instructions.len(), 1);
    assert_eq!(routed.llm_request.instructions[0].role, Role::Developer);
}

#[test]
fn shell_file_write_switches_to_execution() {
    let messages = vec![tool_call(
        "exec_command",
        object(&[(
            "cmd",
            text("python -c 'from pathlib import Path; Path(\"x\").write_text(\"y\")'"),
        )]),
    )];

    let (selected, routed) = route_and_capture(&mut algorithm(), request(messages, None));

    assert_eq!(selected.name, "model/efficient");
    assert!(routed.llm_request.instructions.is_empty());
}

#[test]
fn shell_redirection_switches_to_execution() {
    let messages = vec![tool_call(
        "exec_command",
        object(&[("cmd", text("printf 'completed\\n' > task.txt"))]),
    )];

    let (selected, routed) = route_and_capture(&mut algorithm(), request(messages, None));

    assert_eq!(selected.name, "model/efficient");
    assert!(routed.llm_request.instructions.is_empty());
}

#[test]
fn execution_latches_by_session_after_history_compaction() {
    let mut algorithm = algorithm();
    let edit = request(
        vec![tool_call("write_file", object(&[("path", text("src/lib.rs"))]))],
        Some("task-3"),
    );
    let (selected, _) = route_and_capture(&mut algorithm, edit);
    assert_eq!(selected.name, "model/efficient");

    let compacted = request(
        vec![Message::text(Role::User, "Continue from the compacted summary")],
        Some("task-3"),
    );
    let (selected, routed) = route_and_capture(&mut algorithm, compacted);

    assert_eq!(selected.name, "model/efficient");
    assert!(routed.llm_request.instructions.is_empty());
}

#[test]
fn final_request_uses_then_releases_the_session_latch() {
    let mut algorithm = algorithm();
    let edit = request(
        vec![tool_call("write_file", object(&[("path", text("src/lib.rs"))]))],
        Some("task-4"),
    );
    let (selected, _) = route_and_capture(&mut algorithm, edit);
    assert_eq!(selected.name, "model/efficient");

    let mut final_request = request(vec![Message::text(Role::User, "Finish")], Some("task-4"));
    final_request
        .metadata
        .as_mut()
        .expect("session metadata should exist")
        .session_final = Some(true);
    let (selected, _) = route_and_capture(&mut algorithm, final_request);
    assert_eq!(selected.name, "model/efficient");

    let reused = request(vec![Message::text(Role::User, "New task")], Some("task-4"));
    let (selected, _) = route_and_capture(&mut algorithm, reused);
    assert_eq!(selected.name, "model/capable");
}

#[test]
fn checkpoint_allows_read_only_probe_then_executes_one_capable_edit() {
    let mut algorithm = checkpoint_algorithm(2, 8, 4, 16);
    let initial = object(&[("patch", text("initial"))]);
    let seed = request(
        vec![tool_call_with_id("initial-edit", "apply_patch", initial.clone())],
        Some("checkpoint-task"),
    );
    let (selected, _) = route_and_capture(&mut algorithm, seed);
    assert_eq!(selected.name, "model/efficient");

    let progress = request(
        vec![Message::text(Role::User, "implementation progress")],
        Some("checkpoint-task"),
    );
    let (selected, _) = route_and_capture(&mut algorithm, progress);
    assert_eq!(selected.name, "model/efficient");

    let mut checkpoint = request(
        vec![
            Message::text(Role::User, "inspect current state"),
            tool_call_with_id("initial-edit", "apply_patch", initial.clone()),
            tool_result("initial-edit", "Done"),
        ],
        Some("checkpoint-task"),
    );
    checkpoint.llm_request.preservation.requests.responses = Some(object(&[
        ("instructions", text("client instructions")),
        (
            "input",
            Value::Array(vec![
                object(&[
                    ("type", text("message")),
                    ("role", text("user")),
                    ("content", text("inspect current state")),
                ]),
                object(&[
                    ("type", text("function_call")),
                    ("call_id", text("initial-edit")),
                    ("name", text("apply_patch")),
                    ("arguments", text("{\"patch\":\"initial\"}")),
                ]),
                object(&[
                    ("type", text("function_call_output")),
                    ("call_id", text("initial-edit")),
                    ("output", text("Done")),
                ]),
            ]),
        ),
        ("stream", Value::Bool(true)),
    ]));
    let (selected, response, calls) = drive_and_capture_calls(
        &mut algorithm,
        checkpoint,
        model_tool_response(
            "exec_command",
            object(&[("cmd", text("git diff --stat"))]),
            "I will inspect the current patch.",
        ),
    );
    assert_eq!(selected.name, "model/capable");
    assert!(matches!(response.llm_response, LlmResponse::Agg(_)));
    assert_eq!(calls.len(), 1);
    assert_eq!(calls[0].0.name, "model/capable");
    assert!(calls[0].1.llm_request.stream);
    assert!(calls[0].1.llm_request.preservation.requests.responses.is_none());
    assert!(calls[0].1.llm_request.preservation.requests.others.is_empty());
    assert_eq!(calls[0].1.llm_request.instructions.len(), 1);
    assert_eq!(calls[0].1.llm_request.instructions[0].content, planning_prompt());

    let mutation = request(
        vec![
            Message::text(Role::User, "inspect current state"),
            tool_call_with_id("initial-edit", "apply_patch", initial.clone()),
            tool_result("initial-edit", "Done"),
            tool_call_with_id(
                "checkpoint-read",
                "exec_command",
                object(&[("cmd", text("git diff --stat"))]),
            ),
            tool_result("checkpoint-read", "src/lib.rs | 2 ++"),
        ],
        Some("checkpoint-task"),
    );
    let correction =
        object(&[("patch", text("*** Begin Patch\n*** Update File: src/lib.rs"))]);
    let (selected, response, calls) = drive_and_capture_calls(
        &mut algorithm,
        mutation,
        model_tool_response(
            "apply_patch",
            correction.clone(),
            "The implementation needs one correction.",
        ),
    );
    assert_eq!(selected.name, "model/capable");
    assert_eq!(calls.len(), 1);
    assert_eq!(calls[0].0.name, "model/capable");
    let LlmResponse::Agg(aggregate) = response.llm_response else {
        panic!("checkpoint edit should be buffered")
    };
    assert_eq!(mutating_calls(&aggregate).len(), 1);

    let edit_executed = request(
        vec![
            Message::text(Role::Assistant, "The implementation needs one correction."),
            tool_call_with_id("initial-edit", "apply_patch", initial),
            tool_result("initial-edit", "Done"),
            Message {
                role: Role::Assistant,
                content: vec![call("checkpoint-call", "apply_patch", correction)],
            },
            tool_result("checkpoint-call", "Done"),
        ],
        Some("checkpoint-task"),
    );
    let (selected, routed) = route_and_capture(&mut algorithm, edit_executed.clone());
    assert_eq!(selected.name, "model/efficient");
    assert_eq!(routed.llm_request.messages, edit_executed.llm_request.messages);
}

#[test]
fn checkpoint_turn_cap_forces_a_tool_free_handoff() {
    let mut algorithm = checkpoint_algorithm(1, 8, 1, 16);
    let seed = request(
        vec![tool_call("apply_patch", object(&[("patch", text("initial"))]))],
        Some("bounded-task"),
    );
    route_and_capture(&mut algorithm, seed);

    let checkpoint = request(vec![Message::text(Role::User, "continue")], Some("bounded-task"));
    let (selected, _, calls) = drive_and_capture_calls(
        &mut algorithm,
        checkpoint,
        text_response("The current direction is sound."),
    );
    assert_eq!(selected.name, "model/efficient");
    assert_eq!(calls.len(), 2);
    assert_eq!(calls[0].0.name, "model/capable");
    assert_eq!(calls[0].1.llm_request.tool_choice, Some(ToolChoice::Forbidden));
}

#[test]
fn total_checkpoint_cap_disables_later_checkpoints() {
    let mut algorithm = checkpoint_algorithm(1, 8, 1, 1);
    let seed = request(
        vec![tool_call("apply_patch", object(&[("patch", text("initial"))]))],
        Some("total-cap-task"),
    );
    route_and_capture(&mut algorithm, seed);

    let checkpoint = request(vec![Message::text(Role::User, "continue")], Some("total-cap-task"));
    drive_and_capture_calls(&mut algorithm, checkpoint, text_response("done"));

    let progress =
        request(vec![Message::text(Role::User, "more progress")], Some("total-cap-task"));
    let (selected, _) = route_and_capture(&mut algorithm, progress);
    assert_eq!(selected.name, "model/efficient");
    let next = request(vec![Message::text(Role::User, "continue again")], Some("total-cap-task"));
    let (selected, _) = route_and_capture(&mut algorithm, next);
    assert_eq!(selected.name, "model/efficient");
}

#[test]
fn response_compaction_keeps_prefix_first_mutation_and_recent_evidence() {
    let mut input = vec![
        object(&[("type", text("message")), ("role", text("user")), ("content", text("task"))]),
        object(&[
            ("type", text("function_call")),
            ("call_id", text("plan-read")),
            ("name", text("exec_command")),
            ("arguments", text("{\"cmd\":\"rg parser\"}")),
        ]),
        object(&[
            ("type", text("function_call_output")),
            ("call_id", text("plan-read")),
            ("output", text("found")),
        ]),
        object(&[
            ("type", text("function_call")),
            ("call_id", text("first-edit")),
            ("name", text("apply_patch")),
            ("arguments", text("{\"patch\":\"first\"}")),
        ]),
        object(&[
            ("type", text("function_call_output")),
            ("call_id", text("first-edit")),
            ("output", text("done")),
        ]),
    ];
    for index in 0..8 {
        input.push(object(&[
            ("type", text("function_call")),
            ("call_id", text(&format!("read-{index}"))),
            ("name", text("exec_command")),
            ("arguments", text("{\"cmd\":\"git diff\"}")),
        ]));
        input.push(object(&[
            ("type", text("function_call_output")),
            ("call_id", text(&format!("read-{index}"))),
            ("output", text(&format!("result-{index}"))),
        ]));
    }

    let compacted = compact_responses_input(&input, &verdicts(&input));
    let encoded = serde_json::to_string(&compacted).expect("compacted input should encode");
    assert!(encoded.contains("plan-read"));
    assert!(encoded.contains("first-edit"));
    assert!(!encoded.contains("read-0"));
    assert!(!encoded.contains("read-1"));
    assert!(encoded.contains("read-2"));
    assert!(encoded.contains("read-7"));
    assert_eq!(compacted[..5], input[..5]);
    assert_eq!(compacted[5..], input[9..]);
}

#[test]
fn empty_planning_prompt_is_rejected() {
    let result = PlanExecute::new(
        model("model/capable"),
        model("model/efficient"),
        PlanExecuteConfig { planning_prompt: "  ".to_string(), ..PlanExecuteConfig::default() },
    );

    assert!(matches!(result, Err(LibsyError::AlgorithmError { .. })));
}

fn fault(config: PlanExecuteConfig) -> Option<LibsyError> {
    PlanExecute::new(model("model/capable"), model("model/efficient"), config).err()
}

fn says(message: &str) -> Option<LibsyError> {
    Some(LibsyError::AlgorithmError { message: message.to_string() })
}

#[test]
fn configuration_faults_are_named() {
    assert_eq!(
        fault(PlanExecuteConfig {
            planning_prompt: "\u{2003}\n\t".to_string(),
            ..PlanExecuteConfig::default()
        }),
        says("planning_prompt must not be empty")
    );
    let enabled = PlanExecuteConfig {
        checkpoint_interval_turns: 1,
        ..PlanExecuteConfig::default()
    };
    assert_eq!(fault(enabled.clone()), None);
    assert_eq!(
        fault(PlanExecuteConfig { checkpoint_prompt: " ".to_string(), ..enabled.clone() }),
        says("checkpoint_prompt must not be empty when checkpoints are enabled")
    );
    let limits = says("checkpoint limits must be at least 1 when checkpoints are enabled");
    assert_eq!(fault(PlanExecuteConfig { max_checkpoints: 0, ..enabled.clone() }), limits);
    assert_eq!(fault(PlanExecuteConfig { max_checkpoint_turns: 0, ..enabled.clone() }), limits);
    assert_eq!(fault(PlanExecuteConfig { max_checkpoint_turns_total: 0, ..enabled }), limits);
    let disabled = PlanExecuteConfig {
        checkpoint_prompt: String::new(),
        max_checkpoints: 0,
        max_checkpoint_turns: 0,
        max_checkpoint_turns_total: 0,
        ..PlanExecuteConfig::default()
    };
    assert_eq!(fault(disabled), None);
}

#[test]
fn default_configuration_is_trimmed_and_bounded() {
    let config = PlanExecuteConfig::default();
    assert_eq!(config.planning_prompt, DEFAULT_PLANNING_PROMPT.trim());
    assert_ne!(config.planning_prompt, DEFAULT_PLANNING_PROMPT);
    assert_eq!(config.checkpoint_prompt, DEFAULT_CHECKPOINT_PROMPT.trim());
    assert_eq!(config.checkpoint_interval_turns, 0);
    assert_eq!(config.max_checkpoints, 8);
    assert_eq!(config.max_checkpoint_turns, 4);
    assert_eq!(config.max_checkpoint_turns_total, 16);
    assert_eq!(algorithm().name(), "plan_execute");
}

const NO_EDIT: ToolSignals = ToolSignals { edit_count: 0, write_count: 0 };

fn say(words: &str, session: &str) -> Request {
    request(vec![Message::text(Role::User, words)], Some(session))
}

fn edit(id: &str, session: &str) -> Request {
    request(
        vec![tool_call_with_id(id, "apply_patch", object(&[("patch", text("x"))]))],
        Some(session),
    )
}

#[test]
fn either_count_of_the_signals_is_an_edit() {
    let request = request(vec![Message::text(Role::User, "go on")], None);
    let mut algorithm = algorithm();
    assert_eq!(algorithm.phase(&request, NO_EDIT), Phase::Plan);
    assert_eq!(
        algorithm.phase(&request, ToolSignals { edit_count: 1, write_count: 0 }),
        Phase::Execute
    );
    assert_eq!(
        algorithm.phase(&request, ToolSignals { edit_count: 0, write_count: 1 }),
        Phase::Execute
    );
    assert_eq!(algorithm.phase(&request, NO_EDIT), Phase::Plan);
}

#[test]
fn checkpoints_come_after_each_interval() {
    let mut algorithm = checkpoint_algorithm(3, 8, 4, 16);
    let first = edit("e", "s");
    let signals = signals_of(&first);
    assert_eq!(algorithm.phase(&first, signals), Phase::Execute);
    let turn = say("go on", "s");
    assert_eq!(algorithm.phase(&turn, NO_EDIT), Phase::Execute);
    assert_eq!(algorithm.phase(&turn, NO_EDIT), Phase::Execute);
    let probe = Phase::Checkpoint { force_handoff: false };
    assert_eq!(algorithm.phase(&turn, NO_EDIT), probe);
    assert_eq!(algorithm.phase(&turn, NO_EDIT), probe);
    algorithm.finish_checkpoint(&turn);
    assert_eq!(algorithm.phase(&turn, NO_EDIT), Phase::Execute);
    assert_eq!(algorithm.phase(&turn, NO_EDIT), Phase::Execute);
    assert_eq!(algorithm.phase(&turn, NO_EDIT), probe);
}

#[test]
fn turns_of_one_checkpoint_are_bounded() {
    let mut algorithm = checkpoint_algorithm(1, 8, 2, 16);
    let first = edit("e", "s");
    let signals = signals_of(&first);
    algorithm.phase(&first, signals);
    let turn = say("go on", "s");
    assert_eq!(algorithm.phase(&turn, NO_EDIT), Phase::Checkpoint { force_handoff: false });
    assert_eq!(algorithm.phase(&turn, NO_EDIT), Phase::Checkpoint { force_handoff: true });
    assert_eq!(algorithm.phase(&turn, NO_EDIT), Phase::Execute);
    assert_eq!(algorithm.phase(&turn, NO_EDIT), Phase::Checkpoint { force_handoff: false });
}

#[test]
fn used_up_turns_end_a_checkpoint_without_a_handoff() {
    let mut algorithm = checkpoint_algorithm(1, 8, 4, 3);
    let first = edit("e", "s");
    let signals = signals_of(&first);
    algorithm.phase(&first, signals);
    let turn = say("go on", "s");
    assert_eq!(algorithm.phase(&turn, NO_EDIT), Phase::Checkpoint { force_handoff: false });
    assert_eq!(algorithm.phase(&turn, NO_EDIT), Phase::Checkpoint { force_handoff: false });
    assert_eq!(algorithm.phase(&turn, NO_EDIT), Phase::Checkpoint { force_handoff: true });
    for _ in 0..10 {
        assert_eq!(algorithm.phase(&turn, NO_EDIT), Phase::Execute);
    }
}

#[test]
fn checkpoint_turns_of_a_session_are_bounded() {
    let mut algorithm = checkpoint_algorithm(1, 8, 4, 3);
    let first = edit("e", "s");
    let signals = signals_of(&first);
    algorithm.phase(&first, signals);
    let turn = say("go on", "s");
    assert_eq!(algorithm.phase(&turn, NO_EDIT), Phase::Checkpoint { force_handoff: false });
    assert_eq!(algorithm.phase(&turn, NO_EDIT), Phase::Checkpoint { force_handoff: false });
    algorithm.finish_checkpoint(&turn);
    assert_eq!(algorithm.phase(&turn, NO_EDIT), Phase::Checkpoint { force_handoff: true });
    algorithm.finish_checkpoint(&turn);
    for _ in 0..10 {
        assert_eq!(algorithm.phase(&turn, NO_EDIT), Phase::Execute);
    }
}

#[test]
fn checkpoints_of_a_session_are_bounded() {
    let mut algorithm = checkpoint_algorithm(1, 2, 4, 16);
    let first = edit("e", "s");
    let signals = signals_of(&first);
    algorithm.phase(&first, signals);
    let turn = say("go on", "s");
    for _ in 0..2 {
        assert_eq!(algorithm.phase(&turn, NO_EDIT), Phase::Checkpoint { force_handoff: false });
        algorithm.finish_checkpoint(&turn);
    }
    for _ in 0..10 {
        assert_eq!(algorithm.phase(&turn, NO_EDIT), Phase::Execute);
    }
}

#[test]
fn zero_interval_disables_checkpoints() {
    let mut algorithm = algorithm();
    let first = edit("e", "s");
    let signals = signals_of(&first);
    algorithm.phase(&first, signals);
    for _ in 0..40 {
        assert_eq!(algorithm.phase(&say("go on", "s"), NO_EDIT), Phase::Execute);
    }
}

#[test]
fn only_a_new_edit_ends_a_checkpoint() {
    let mut algorithm = checkpoint_algorithm(1, 8, 4, 16);
    let known = edit("known", "s");
    let signals = signals_of(&known);
    assert_eq!(algorithm.phase(&known, signals), Phase::Execute);
    assert_eq!(algorithm.phase(&known, signals), Phase::Checkpoint { force_handoff: false });
    assert_eq!(algorithm.phase(&known, signals), Phase::Checkpoint { force_handoff: false });
    let new = edit("new", "s");
    assert_eq!(algorithm.phase(&new, signals), Phase::Execute);
}

#[test]
fn sessions_do_not_mix() {
    let mut algorithm = algorithm();
    let first = edit("e", "one");
    let signals = signals_of(&first);
    assert_eq!(algorithm.phase(&first, signals), Phase::Execute);
    assert_eq!(algorithm.phase(&say("hello", "two"), NO_EDIT), Phase::Plan);
    let mut last = say("bye", "two");
    last.metadata.as_mut().expect("metadata").session_final = Some(true);
    assert_eq!(algorithm.phase(&last, NO_EDIT), Phase::Plan);
    assert_eq!(algorithm.phase(&say("go on", "one"), NO_EDIT), Phase::Execute);
}

#[test]
fn a_request_that_is_not_final_keeps_the_latch() {
    let mut algorithm = algorithm();
    let first = edit("e", "s");
    let signals = signals_of(&first);
    algorithm.phase(&first, signals);
    let mut next = say("go on", "s");
    next.metadata.as_mut().expect("metadata").session_final = Some(false);
    assert_eq!(algorithm.phase(&next, NO_EDIT), Phase::Execute);
    assert_eq!(algorithm.phase(&say("go on", "s"), NO_EDIT), Phase::Execute);
}

#[test]
fn a_full_router_forgets_one_session_for_a_new_one() {
    let mut algorithm = algorithm();
    let mut tracker = ExecutionTracker::new();
    let signals = ToolSignals { edit_count: 1, write_count: 0 };
    for index in 0..MAX_EXECUTING_SESSIONS + 1 {
        let request = say("edit", &format!("session-{index}"));
        assert_eq!(algorithm.phase(&request, signals), Phase::Execute);
        assert!(tracker.is_executing(&request, signals));
    }
    let newest = say("go on", &format!("session-{MAX_EXECUTING_SESSIONS}"));
    assert_eq!(algorithm.phase(&newest, NO_EDIT), Phase::Execute);
    assert!(tracker.is_executing(&newest, NO_EDIT));
    let mut forgotten = 0;
    let mut untracked = 0;
    for index in 0..MAX_EXECUTING_SESSIONS {
        let request = say("go on", &format!("session-{index}"));
        if algorithm.phase(&request, NO_EDIT) == Phase::Plan {
            forgotten += 1;
        }
        if !tracker.is_executing(&request, NO_EDIT) {
            untracked += 1;
        }
    }
    assert_eq!(forgotten, 1);
    assert_eq!(untracked, 1);
}

#[test]
fn the_tracker_latches_until_the_last_request() {
    let mut tracker = ExecutionTracker::new();
    let signals = ToolSignals { edit_count: 0, write_count: 2 };
    let turn = say("go on", "s");
    assert!(!tracker.is_executing(&turn, NO_EDIT));
    assert!(tracker.is_executing(&turn, signals));
    assert!(tracker.is_executing(&turn, NO_EDIT));
    let mut last = say("bye", "s");
    last.metadata.as_mut().expect("metadata").session_final = Some(true);
    assert!(tracker.is_executing(&last, NO_EDIT));
    assert!(!tracker.is_executing(&turn, NO_EDIT));
    let anonymous = request(vec![Message::text(Role::User, "go on")], None);
    assert!(tracker.is_executing(&anonymous, signals));
    assert!(!tracker.is_executing(&anonymous, NO_EDIT));
}

#[test]
fn edits_are_known_by_their_ids() {
    let request = request(
        vec![
            tool_call_with_id("edit", "apply_patch", Value::Null),
            tool_call_with_id("read", "exec_command", object(&[("cmd", text("ls"))])),
            tool_call_with_id("write", "write_file", Value::Null),
        ],
        None,
    );
    let ids = mutation_call_ids(&request);
    assert!(ids.contains("edit"));
    assert!(!ids.contains("read"));
    assert!(ids.contains("write"));
}

fn note_of(calls: &[(ModelId, Request)]) -> String {
    let last = calls[1].1.llm_request.messages.last().expect("a note");
    assert_eq!(last.role, Role::User);
    match last.content.last() {
        Some(ContentBlock::Text { text }) => text.clone(),
        _ => panic!("a note is text"),
    }
}

fn due(max_turns: u32) -> PlanExecute {
    let mut algorithm = checkpoint_algorithm(1, 8, max_turns, 16);
    let first = edit("e", "s");
    route_and_capture(&mut algorithm, first);
    algorithm
}

#[test]
fn a_handoff_carries_the_planning_note() {
    let two = response_of(vec![
        ContentBlock::Text { text: "Keep going.".to_string() },
        ContentBlock::Text { text: "Then test.".to_string() },
    ]);
    let (_, _, calls) = drive_and_capture_calls(&mut due(4), say("continue", "s"), two);
    assert_eq!(
        note_of(&calls),
        "A planning checkpoint inspected the current environment. Continue implementation using its latest assessment.\n\nUpdated planning note:\nKeep going.\nThen test."
    );
    let (_, _, calls) =
        drive_and_capture_calls(&mut due(4), say("continue", "s"), response_of(Vec::new()));
    assert_eq!(
        note_of(&calls),
        "A planning checkpoint inspected the current environment. Continue implementation using its latest assessment.\n\nUpdated planning note:\nThe existing direction remains appropriate."
    );
    assert_eq!(calls[1].1.llm_request.messages.len(), 1);
    assert_eq!(calls[1].1.llm_request.messages[0].content.len(), 2);
}

#[test]
fn a_forced_turn_that_asks_for_tools_is_blocked() {
    let asks = model_tool_response("exec_command", object(&[("cmd", text("ls"))]), "One look.");
    let (selected, _, calls) = drive_and_capture_calls(&mut due(1), say("continue", "s"), asks);
    assert_eq!(selected.name, "model/efficient");
    assert_eq!(
        note_of(&calls),
        "The bounded planning checkpoint ended before its requested tools ran. Continue implementation using the evidence already available.\n\nLatest planning note:\nOne look."
    );
    let silent = response_of(vec![call("c", "exec_command", object(&[("cmd", text("ls"))]))]);
    let (_, _, calls) = drive_and_capture_calls(&mut due(1), say("continue", "s"), silent);
    assert_eq!(
        note_of(&calls),
        "The bounded planning checkpoint ended before its requested tools ran. Continue implementation using the evidence already available.\n\nLatest planning note:\nNo additional explanation was provided."
    );
}

#[test]
fn a_forced_turn_may_still_edit() {
    let edits = model_tool_response("apply_patch", object(&[("patch", text("y"))]), "Fixed.");
    let mut algorithm = due(1);
    let (selected, _, calls) = drive_and_capture_calls(&mut algorithm, say("go", "s"), edits);
    assert_eq!(selected.name, "model/capable");
    assert_eq!(calls.len(), 1);
    assert_eq!(algorithm.phase(&say("go", "s"), NO_EDIT), Phase::Execute);
}

#[test]
fn a_checkpoint_is_answered_as_the_client_asked() {
    let asks = model_tool_response("exec_command", object(&[("cmd", text("ls"))]), "One look.");
    let mut streamed = say("continue", "s");
    streamed.llm_request.stream = true;
    let (_, response, _) = drive_and_capture_calls(&mut due(4), streamed, asks);
    match response.llm_response {
        LlmResponse::AggStream(aggregate) => assert_eq!(mutating_calls(&aggregate).len(), 0),
        _ => panic!("a streamed request is answered as a stream"),
    }
}

#[test]
fn a_checkpoint_inspects_the_shortened_conversation() {
    let mut algorithm = checkpoint_algorithm(1, 8, 4, 16);
    let mut messages = vec![
        Message::text(Role::User, "task"),
        tool_call_with_id("edit", "apply_patch", Value::Null),
        tool_result("edit", "ok"),
        Message::text(Role::Assistant, "chatter"),
    ];
    for index in 0..7 {
        let id = format!("read-{index}");
        messages.push(tool_call_with_id(&id, "exec_command", Value::Null));
        messages.push(tool_result(&id, "ok"));
    }
    let long = request(messages.clone(), Some("s"));
    let mut given = long.clone();
    given.detail = text("route");
    given.llm_request.detail = text("tools");
    given.llm_request.tool_choice = Some(ToolChoice::Other(text("auto")));
    route_and_capture(&mut algorithm, long);
    let inspected = algorithm.checkpoint_request(&given, &Vec::new(), false);
    let mut expected = messages[..3].to_vec();
    expected.extend_from_slice(&messages[6..]);
    expected.push(Message::text(Role::User, DEFAULT_CHECKPOINT_PROMPT.trim()));
    assert_eq!(inspected.llm_request.messages, expected);
    assert_eq!(inspected.llm_request.tool_choice, Some(ToolChoice::Other(text("auto"))));
    assert!(inspected.llm_request.stream);
    assert_eq!(inspected.identity, given.identity);
    assert_eq!(inspected.metadata, given.metadata);
    assert_eq!(inspected.detail, text("route"));
    assert_eq!(inspected.llm_request.detail, text("tools"));
}

#[test]
fn a_session_keeps_executing_among_others() {
    let mut algorithm = checkpoint_algorithm(3, 8, 4, 16);
    let mut tracker = ExecutionTracker::new();
    let first = edit("e", "s");
    let signals = signals_of(&first);
    assert_eq!(algorithm.phase(&first, signals), Phase::Execute);
    assert!(tracker.is_executing(&first, signals));
    for index in 0..20 {
        let other = edit("f", &format!("other-{index}"));
        algorithm.phase(&other, signals);
        tracker.is_executing(&other, signals);
        let mut last = say("bye", &format!("other-{index}"));
        last.metadata.as_mut().expect("metadata").session_final = Some(true);
        algorithm.phase(&last, NO_EDIT);
        tracker.is_executing(&last, NO_EDIT);
        algorithm.finish_checkpoint(&say("go on", "s"));
        assert_ne!(algorithm.phase(&say("go on", "s"), NO_EDIT), Phase::Plan);
        assert!(tracker.is_executing(&say("go on", "s"), NO_EDIT));
    }
    let mut last = say("bye", "s");
    last.metadata.as_mut().expect("metadata").session_final = Some(true);
    assert_eq!(algorithm.phase(&last, NO_EDIT), Phase::Execute);
    assert_eq!(algorithm.phase(&edit("f", "another"), signals), Phase::Execute);
    assert_eq!(algorithm.phase(&say("hello", "s"), NO_EDIT), Phase::Plan);
    assert_eq!(algorithm.phase(&say("hello", "s"), NO_EDIT), Phase::Plan);
}
