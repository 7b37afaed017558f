//! The session loop's decisions for one turn. The caller runs the model and
//! the collaborators; after each generation cycle and after each dispatch it
//! hands the result to the turn, which says what to do next.
use vstd::prelude::*;
use crate::decode::{decode_action, decode_spec, Action, ActionKind, DecodeError};
use crate::dispatch::ExecutionOutcome;
use crate::event::{plan_dispatch, request_spec, Request};
use crate::extract::{action_block_spec, find_action_block, fix_json_multiline_strings, repair_spec};
use crate::retry::{exceeds_threshold, similarity_spec, repeats_any, AbortReason, RetryController, Verdict, RETRY_CEILING};
use crate::scanner::StopReason;
use crate::text::{chars_of, push_str, string_of, trim, trim_spec};

verus! {

/// How a turn ended.
#[derive(Clone, Copy, Debug, PartialEq, Eq, Structural)]
pub enum TurnEnd {
    /// The assistant finished, or the model ended its generation.
    Finished,
    /// The action failed for good: the budget ran out or a loop was detected.
    Aborted,
    /// The user cancelled the turn.
    Interrupted,
    /// The shared context is full and must be reset.
    ContextFull,
    /// The token budget ran out; the response is truncated.
    Truncated,
}

/// What the caller is to do next.
pub enum Step {
    /// Inject this fragment into the context, then resume generation.
    Continue(String),
    /// Perform this request, then hand its outcome to the turn.
    Dispatch(Request),
    /// End the turn; a fragment to inject first, where there is one.
    End(TurnEnd, Option<String>),
}

/// The prompt fragment that opens a user turn.
pub open spec fn user_prompt_spec(input: Seq<char>) -> Seq<char> {
    "<end_of_turn>\n<start_of_turn>user\n"@ + trim_spec(input) + "\n<end_of_turn>\n<start_of_turn>model\n"@
}

/// The fragment that hands a successful result back to the model.
pub open spec fn result_prompt_spec(text: Seq<char>) -> Seq<char> {
    "\n\n[EXECUTION_RESULT]:\n"@ + text + "\n\n"@
}

/// The fragment that hands a failed event's error back to the model.
pub open spec fn error_prompt_spec(text: Seq<char>) -> Seq<char> {
    "\n\n[EXECUTION_ERROR]:\n"@ + text + "\n\n"@
}

/// The fragment that names a parse error and asks for the block again.
pub open spec fn parse_prompt_spec(message: Seq<char>) -> Seq<char> {
    "\n\n[PARSE_ERROR]:\n"@ + message
        + "\nSend the action again as one ```json block with the fields \"action\" and \"code\", the code written with real line breaks.\n\n"@
}

/// The fragment that asks the model to reflect on failed code.
pub open spec fn reflection_prompt_spec(error: Seq<char>, code: Seq<char>) -> Seq<char> {
    "\n\n[EXECUTION_ERROR]:\n"@ + error + "\n[FAILED_CODE]:\n"@ + code
        + "\nState the root cause in one line, then send a corrected version.\n\n"@
}

/// The fragment that ends a turn whose action failed for good.
pub open spec fn abort_prompt_spec(reason: AbortReason) -> Seq<char> {
    match reason {
        AbortReason::BudgetExhausted => "\n\n[RETRY_LIMIT]: the action failed too many times. Stop retrying and explain the failure to the user.\n\n"@,
        AbortReason::LoopDetected => "\n\n[LOOP_DETECTED]: the new code repeats a failed attempt. Stop retrying and explain the failure to the user.\n\n"@,
    }
}

/// What is said of a block that could not be decoded.
pub open spec fn decode_error_text(e: DecodeError) -> Seq<char> {
    match e {
        DecodeError::NotJson(m) => m@,
        DecodeError::MissingAction => "the block has no string field \"action\""@,
        DecodeError::UnknownAction(a) => "unknown action: "@ + a@,
        DecodeError::MissingCode => "the block has no string field \"code\""@,
    }
}

/// What is said of a response with no action block.
pub open spec fn no_block_text() -> Seq<char> {
    "no ```json block was found"@
}

/// The prompt fragment that opens a user turn.
pub fn user_turn_prompt(input: &str) -> (r: String)
    ensures
        r@ == user_prompt_spec(input@),
{
    let mut out: Vec<char> = Vec::new();
    push_str(&mut out, "<end_of_turn>\n<start_of_turn>user\n");
    let c = chars_of(input);
    let t = trim(c.as_slice());
    crate::text::push_all(&mut out, t.as_slice());
    push_str(&mut out, "\n<end_of_turn>\n<start_of_turn>model\n");
    string_of(out.as_slice())
}

/// The fragment that hands a successful result back to the model.
pub fn result_prompt(text: &str) -> (r: String)
    ensures
        r@ == result_prompt_spec(text@),
{
    let mut out: Vec<char> = Vec::new();
    push_str(&mut out, "\n\n[EXECUTION_RESULT]:\n");
    push_str(&mut out, text);
    push_str(&mut out, "\n\n");
    string_of(out.as_slice())
}

/// The fragment that hands a failed event's error back to the model.
pub fn error_prompt(text: &str) -> (r: String)
    ensures
        r@ == error_prompt_spec(text@),
{
    let mut out: Vec<char> = Vec::new();
    push_str(&mut out, "\n\n[EXECUTION_ERROR]:\n");
    push_str(&mut out, text);
    push_str(&mut out, "\n\n");
    string_of(out.as_slice())
}

/// The fragment that names a parse error and asks for the block again.
pub fn parse_prompt(message: &str) -> (r: String)
    ensures
        r@ == parse_prompt_spec(message@),
{
    let mut out: Vec<char> = Vec::new();
    push_str(&mut out, "\n\n[PARSE_ERROR]:\n");
    push_str(&mut out, message);
    push_str(
        &mut out,
        "\nSend the action again as one ```json block with the fields \"action\" and \"code\", the code written with real line breaks.\n\n",
    );
    string_of(out.as_slice())
}

/// The fragment that asks the model to reflect on failed code.
pub fn reflection_prompt(error: &str, code: &str) -> (r: String)
    ensures
        r@ == reflection_prompt_spec(error@, code@),
{
    let mut out: Vec<char> = Vec::new();
    push_str(&mut out, "\n\n[EXECUTION_ERROR]:\n");
    push_str(&mut out, error);
    push_str(&mut out, "\n[FAILED_CODE]:\n");
    push_str(&mut out, code);
    push_str(&mut out, "\nState the root cause in one line, then send a corrected version.\n\n");
    string_of(out.as_slice())
}

/// The fragment that ends a turn whose action failed for good.
pub fn abort_prompt(reason: AbortReason) -> (r: String)
    ensures
        r@ == abort_prompt_spec(reason),
{
    match reason {
        AbortReason::BudgetExhausted => String::from_str(
            "\n\n[RETRY_LIMIT]: the action failed too many times. Stop retrying and explain the failure to the user.\n\n",
        ),
        AbortReason::LoopDetected => String::from_str(
            "\n\n[LOOP_DETECTED]: the new code repeats a failed attempt. Stop retrying and explain the failure to the user.\n\n",
        ),
    }
}

/// What is said of a block that could not be decoded.
pub fn describe_decode_error(e: &DecodeError) -> (r: String)
    ensures
        r@ == decode_error_text(*e),
{
    match e {
        DecodeError::NotJson(m) => m.clone(),
        DecodeError::MissingAction => String::from_str("the block has no string field \"action\""),
        DecodeError::UnknownAction(a) => {
            let mut out: Vec<char> = Vec::new();
            push_str(&mut out, "unknown action: ");
            push_str(&mut out, a.as_str());
            string_of(out.as_slice())
        },
        DecodeError::MissingCode => String::from_str("the block has no string field \"code\""),
    }
}

/// The state of one turn: its retry state, and the code of the dispatch in
/// flight, if that dispatch runs code.
pub struct Turn {
    retry: RetryController,
    pending_code: Option<String>,
}

/// The abstract state of a turn: the failure count, the failed attempts,
/// and the code in flight.
pub struct TurnState {
    pub failures: nat,
    pub attempts: Seq<Seq<char>>,
    pub pending: Option<Seq<char>>,
}

/// A turn after a failure with no code, which counts against the budget.
pub open spec fn after_failure(st: TurnState) -> TurnState {
    TurnState {
        failures: if st.failures + 1 >= RETRY_CEILING {
            RETRY_CEILING as nat
        } else {
            st.failures + 1
        },
        pending: None,
        ..st
    }
}

/// What follows a failure with no code and the text to report: a retry
/// prompt while budget is left, else the end of the turn.
pub open spec fn failure_step(st: TurnState, prompt: Seq<char>, r: Step, next: TurnState) -> bool {
    &&& next == after_failure(st)
    &&& if st.failures + 1 >= RETRY_CEILING {
        r matches Step::End(TurnEnd::Aborted, Some(n)) && n@ == abort_prompt_spec(
            AbortReason::BudgetExhausted,
        )
    } else {
        r matches Step::Continue(p) && p@ == prompt
    }
}

/// What follows a decoded block: a failure for an error; for code that
/// repeats a failed attempt, the end of the turn before any dispatch; else
/// the dispatch that the action asks for.
pub open spec fn decoded_step(
    st: TurnState,
    res: Result<Action, DecodeError>,
    r: Step,
    next: TurnState,
) -> bool {
    match res {
        Err(e) => failure_step(st, parse_prompt_spec(decode_error_text(e)), r, next),
        Ok(act) => if act.kind == ActionKind::Execute && repeats_any(act.payload@, st.attempts) {
            &&& r matches Step::End(TurnEnd::Aborted, Some(n))
            &&& n@ == abort_prompt_spec(AbortReason::LoopDetected)
            &&& next == TurnState { pending: None, ..st }
        } else {
            &&& r matches Step::Dispatch(q)
            &&& request_spec(act.kind, act.payload@, q)
            &&& next == TurnState {
                pending: if act.kind == ActionKind::Execute {
                    Some(act.payload@)
                } else {
                    None
                },
                ..st
            }
        },
    }
}

/// What follows an action block: its repaired text decodes to some result
/// (the parser's message aside, `decode_spec` fixes it), and the turn goes on
/// from that result.
pub open spec fn block_step(st: TurnState, b: Seq<char>, r: Step, next: TurnState) -> bool {
    exists|res: Result<Action, DecodeError>|
        #[trigger] decode_spec(repair_spec(b), res) && decoded_step(st, res, r, next)
}

/// How a turn ends on a stop other than a ready action.
pub open spec fn end_of(stop: StopReason) -> TurnEnd {
    match stop {
        StopReason::EndOfTurn => TurnEnd::Finished,
        StopReason::EndOfGeneration => TurnEnd::Finished,
        StopReason::ContextLimit => TurnEnd::ContextFull,
        StopReason::MaxTokens => TurnEnd::Truncated,
        _ => TurnEnd::Interrupted,
    }
}

/// What follows the end of a generation cycle.
pub open spec fn stop_step(
    st: TurnState,
    stop: StopReason,
    response: Seq<char>,
    r: Step,
    next: TurnState,
) -> bool {
    match stop {
        StopReason::ExecutionComplete => match action_block_spec(response) {
            None => failure_step(st, parse_prompt_spec(no_block_text()), r, next),
            Some(b) => block_step(st, b, r, next),
        },
        _ => {
            &&& next == st
            &&& r matches Step::End(e, None)
            &&& e == end_of(stop)
        },
    }
}

/// What follows a dispatch's outcome: a success resets the budget and hands
/// the result back; a failed run of code goes to the loop breaker and the
/// budget, with a reflection prompt while both allow; a failed event counts
/// against the budget and hands the error back.
pub open spec fn outcome_step(st: TurnState, success: bool, text: Seq<char>, r: Step, next: TurnState) -> bool {
    if success {
        &&& r matches Step::Continue(p)
        &&& p@ == result_prompt_spec(text)
        &&& next == TurnState { failures: 0, attempts: seq![], pending: None }
    } else {
        match st.pending {
            None => failure_step(st, error_prompt_spec(text), r, next),
            Some(code) => {
                &&& next.failures == after_failure(st).failures
                &&& next.pending is None
                &&& if repeats_any(code, st.attempts) {
                    r matches Step::End(TurnEnd::Aborted, Some(n)) && n@ == abort_prompt_spec(
                        AbortReason::LoopDetected,
                    )
                } else if st.failures + 1 >= RETRY_CEILING {
                    r matches Step::End(TurnEnd::Aborted, Some(n)) && n@ == abort_prompt_spec(
                        AbortReason::BudgetExhausted,
                    )
                } else {
                    &&& r matches Step::Continue(p)
                    &&& p@ == reflection_prompt_spec(text, code)
                    &&& next.attempts == st.attempts.push(code)
                }
            },
        }
    }
}

impl View for Turn {
    type V = TurnState;

    closed spec fn view(&self) -> TurnState {
        TurnState {
            failures: self.retry@.0,
            attempts: self.retry@.1,
            pending: match &self.pending_code {
                Some(c) => Some(c@),
                None => None,
            },
        }
    }
}

impl Turn {
    /// The turn's own invariant.
    pub closed spec fn wf(&self) -> bool {
        self.retry.wf()
    }

    /// A fresh turn: no failure, no failed attempt, nothing in flight.
    pub fn new() -> (r: Turn)
        ensures
            r.wf(),
            r@ == (TurnState { failures: 0, attempts: seq![], pending: None }),
    {
        Turn { retry: RetryController::new(), pending_code: None }
    }

    /// The count of consecutive failures.
    pub fn failures(&self) -> (r: usize)
        ensures
            r == self@.failures,
    {
        self.retry.failures()
    }

    fn fail(&mut self, prompt: String) -> (r: Step)
        requires
            old(self).wf(),
        ensures
            final(self).wf(),
            failure_step(old(self)@, prompt@, r, final(self)@),
    {
        self.pending_code = None;
        match self.retry.record_failure() {
            Verdict::Reflect => Step::Continue(prompt),
            Verdict::Abort(reason) => Step::End(TurnEnd::Aborted, Some(abort_prompt(reason))),
        }
    }

    /// Takes a decoded block, or the reason it could not be decoded, and
    /// says what follows.
    pub fn on_decoded(&mut self, decoded: Result<Action, DecodeError>) -> (r: Step)
        requires
            old(self).wf(),
        ensures
            final(self).wf(),
            decoded_step(old(self)@, decoded, r, final(self)@),
    {
        match decoded {
            Err(e) => {
                let msg = describe_decode_error(&e);
                let p = parse_prompt(msg.as_str());
                self.fail(p)
            },
            Ok(action) => {
                let is_code = action.kind == ActionKind::Execute;
                if is_code && self.retry.repeats_failed(action.payload.as_str()) {
                    self.pending_code = None;
                    return Step::End(TurnEnd::Aborted, Some(abort_prompt(AbortReason::LoopDetected)));
                }
                let request = plan_dispatch(&action);
                if is_code {
                    self.pending_code = Some(action.payload);
                } else {
                    self.pending_code = None;
                }
                Step::Dispatch(request)
            },
        }
    }

    /// Takes the end of a generation cycle, with the response it produced,
    /// and says what follows: for a ready action, its block is found,
    /// repaired and decoded; any other stop ends the turn.
    pub fn on_stop(&mut self, stop: StopReason, response: &str) -> (r: Step)
        requires
            old(self).wf(),
        ensures
            final(self).wf(),
            stop_step(old(self)@, stop, response@, r, final(self)@),
    {
        match stop {
            StopReason::ExecutionComplete => {
                match find_action_block(response) {
                    None => {
                        let p = parse_prompt("no ```json block was found");
                        self.fail(p)
                    },
                    Some(block) => {
                        let fixed = fix_json_multiline_strings(block.as_str());
                        let decoded = decode_action(fixed.as_str());
                        let ghost res = decoded;
                        let r = self.on_decoded(decoded);
                        assert(decode_spec(repair_spec(block@), res));
                        assert(block_step(old(self)@, block@, r, final(self)@));
                        r
                    },
                }
            },
            StopReason::EndOfTurn => Step::End(TurnEnd::Finished, None),
            StopReason::EndOfGeneration => Step::End(TurnEnd::Finished, None),
            StopReason::ContextLimit => Step::End(TurnEnd::ContextFull, None),
            StopReason::MaxTokens => Step::End(TurnEnd::Truncated, None),
            StopReason::Interrupted => Step::End(TurnEnd::Interrupted, None),
        }
    }

    /// Takes the outcome of the dispatch in flight and says what follows.
    pub fn on_outcome(&mut self, outcome: &ExecutionOutcome) -> (r: Step)
        requires
            old(self).wf(),
        ensures
            final(self).wf(),
            outcome_step(old(self)@, outcome.success, outcome.text@, r, final(self)@),
    {
        if outcome.success {
            self.retry.record_success();
            self.pending_code = None;
            return Step::Continue(result_prompt(outcome.text.as_str()));
        }
        let pending = self.pending_code.take();
        match pending {
            None => {
                let p = error_prompt(outcome.text.as_str());
                self.fail(p)
            },
            Some(code) => {
                match self.retry.record_code_failure(code.as_str()) {
                    Verdict::Reflect => Step::Continue(
                        reflection_prompt(outcome.text.as_str(), code.as_str()),
                    ),
                    Verdict::Abort(reason) => Step::End(TurnEnd::Aborted, Some(abort_prompt(reason))),
                }
            },
        }
    }
}

/// Code that is near-identical to a failed attempt of the turn is refused
/// before it is dispatched: the turn ends, aborted by the loop breaker.
pub proof fn lemma_repeat_refused_before_dispatch(
    st: TurnState,
    action: Action,
    prior: int,
    r: Step,
    next: TurnState,
)
    requires
        action.kind == ActionKind::Execute,
        0 <= prior < st.attempts.len(),
        exceeds_threshold(similarity_spec(action.payload@, st.attempts[prior])),
        decoded_step(st, Ok(action), r, next),
    ensures
        !(r is Dispatch),
        r matches Step::End(TurnEnd::Aborted, Some(n)) && n@ == abort_prompt_spec(
            AbortReason::LoopDetected,
        ),
{
    assert(repeats_any(action.payload@, st.attempts));
}

/// Failures count one by one against the budget: a failure that leaves the
/// count under the ceiling resumes generation, the one that brings it to the
/// ceiling ends the turn without a further dispatch, and a success brings the
/// count back to zero, so that the next failure counts from there.
pub proof fn lemma_budget_ends_turn_at_ceiling(
    st: TurnState,
    success: bool,
    text: Seq<char>,
    r: Step,
    next: TurnState,
)
    requires
        st.failures < RETRY_CEILING,
        outcome_step(st, success, text, r, next),
        st.pending matches Some(code) ==> !repeats_any(code, st.attempts),
    ensures
        success ==> next.failures == 0 && r is Continue,
        !success && st.failures + 1 < RETRY_CEILING ==> r is Continue && next.failures
            == st.failures + 1,
        !success && st.failures + 1 == RETRY_CEILING ==> r matches Step::End(TurnEnd::Aborted, _),
{
}

} // verus!
