//! The default prompts.

use crate::text::{blank, is_white_space};
use vstd::prelude::*;

verus! {

/// Default instruction prepended while the capable model is planning.
pub const DEFAULT_PLANNING_PROMPT: &'static str =
    "You are the capable planner. Inspect the task and relevant code with read-only tools before modifying any files. Build an implementation contract for the executor from repository evidence, not assumptions.\n\nBefore the first mutation, emit a visible block beginning exactly `PLAN_COMPLETE`. Include:\n\n1. A requirement ledger mapping every user requirement to repository evidence, the chosen behavior, files or symbols, correctness invariants and edge cases, and a validation item.\n2. Integration risks and concise reasons for the important design decisions. Name rejected alternatives only when they affect correctness.\n3. An ordered executor checklist.\n4. Concrete evidence that would invalidate the plan and require a documented deviation.\n\nKeep the rationale concise and execution-relevant. State conclusions and supporting evidence, not private chain of thought. Write the contract as direct instructions to the executor, which receives it verbatim.\n\nAfter emitting `PLAN_COMPLETE`, immediately make the first mutation in the same task to hand execution off. Do not finish with only a plan.\n";

/// Default instruction used when the planner re-enters during execution.
pub const DEFAULT_CHECKPOINT_PROMPT: &'static str =
    "You are the capable planner, back for a checkpoint while the executor implements your plan. Inspect the current state of the task with read-only tools, compare it with the earlier `PLAN_COMPLETE` contract, and decide whether the direction still holds.\n\nWhen the implementation needs a correction that you can make in one edit, make it. Otherwise answer without tools: state what is done, what is wrong, and what the executor should do next, with the evidence for it.\n";

/// Instruction used after the efficient executor declares completion.
pub const DEFAULT_FINALIZER_PROMPT: &'static str =
    "You are the capable finalizer. The executor has declared the task complete. Inspect the live repository, hold the changes against every requirement of the task, run the relevant checks, and correct whatever is missing or wrong.\n\nYou keep control until the task is done. Finish with a short account of the result.\n";

/// Default pattern of a response with which the executor declares completion.
pub const DEFAULT_FINALIZER_TERMINAL_PATTERN: &'static str =
    r"(?i)^\s*(?:#{1,6}\s*)?(?:\*\*)?(?:implemented|completed|done|erledigt|fertig)(?:\*\*)?\b";

/// The planning prompt is not blank. Its text is given once more to reveal it.
pub proof fn lemma_planning_prompt()
    ensures
        !blank(DEFAULT_PLANNING_PROMPT@),
{
    reveal_strlit("You are the capable planner. Inspect the task and relevant code with read-only tools before modifying any files. Build an implementation contract for the executor from repository evidence, not assumptions.\n\nBefore the first mutation, emit a visible block beginning exactly `PLAN_COMPLETE`. Include:\n\n1. A requirement ledger mapping every user requirement to repository evidence, the chosen behavior, files or symbols, correctness invariants and edge cases, and a validation item.\n2. Integration risks and concise reasons for the important design decisions. Name rejected alternatives only when they affect correctness.\n3. An ordered executor checklist.\n4. Concrete evidence that would invalidate the plan and require a documented deviation.\n\nKeep the rationale concise and execution-relevant. State conclusions and supporting evidence, not private chain of thought. Write the contract as direct instructions to the executor, which receives it verbatim.\n\nAfter emitting `PLAN_COMPLETE`, immediately make the first mutation in the same task to hand execution off. Do not finish with only a plan.\n");
    assert(!is_white_space(DEFAULT_PLANNING_PROMPT@[0]));
}

/// The checkpoint prompt is not blank. Its text is given once more to reveal it.
pub proof fn lemma_checkpoint_prompt()
    ensures
        !blank(DEFAULT_CHECKPOINT_PROMPT@),
{
    reveal_strlit("You are the capable planner, back for a checkpoint while the executor implements your plan. Inspect the current state of the task with read-only tools, compare it with the earlier `PLAN_COMPLETE` contract, and decide whether the direction still holds.\n\nWhen the implementation needs a correction that you can make in one edit, make it. Otherwise answer without tools: state what is done, what is wrong, and what the executor should do next, with the evidence for it.\n");
    assert(!is_white_space(DEFAULT_CHECKPOINT_PROMPT@[0]));
}

/// The finalizer prompt is not blank. Its text is given once more to reveal it.
pub proof fn lemma_finalizer_prompt()
    ensures
        !blank(DEFAULT_FINALIZER_PROMPT@),
{
    reveal_strlit("You are the capable finalizer. The executor has declared the task complete. Inspect the live repository, hold the changes against every requirement of the task, run the relevant checks, and correct whatever is missing or wrong.\n\nYou keep control until the task is done. Finish with a short account of the result.\n");
    assert(!is_white_space(DEFAULT_FINALIZER_PROMPT@[0]));
}

/// The pattern is not empty. Its text is given once more to reveal it.
pub proof fn lemma_terminal_pattern()
    ensures
        DEFAULT_FINALIZER_TERMINAL_PATTERN@.len() > 0,
{
    reveal_strlit(r"(?i)^\s*(?:#{1,6}\s*)?(?:\*\*)?(?:implemented|completed|done|erledigt|fertig)(?:\*\*)?\b");
}

} // verus!
