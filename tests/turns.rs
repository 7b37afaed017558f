use oryxis::decode::{Action, ActionKind, DecodeError};
use oryxis::dispatch::ExecutionOutcome;
use oryxis::event::Request;
use oryxis::retry::{
    similar_beyond_threshold, similarity, AbortReason, RetryController, Similarity, Verdict,
    RETRY_CEILING,
};
use oryxis::scanner::{ScanDecision, Scanner, StopReason};
use oryxis::session::{user_turn_prompt, Step, Turn, TurnEnd};

fn ratio(s: Similarity) -> f64 {
    if s.longer == 0 {
        1.0
    } else {
        s.matching as f64 / s.longer as f64
    }
}

fn failed(text: &str) -> ExecutionOutcome {
    ExecutionOutcome { success: false, text: text.to_string() }
}

fn response_with_code(code: &str) -> String {
    format!("```json\n{{\"action\":\"execute\",\"code\":\"{}\"}}\n```\nEXECUTION_COMPLETE", code)
}

#[test]
fn similarity_of_a_text_with_itself_is_one() {
    assert_eq!(ratio(similarity("", "")), 1.0);
    assert_eq!(ratio(similarity("def f(): pass", "def f(): pass")), 1.0);
    assert_eq!(similarity("abcd", "abxd"), Similarity { matching: 3, longer: 4 });
    assert_eq!(similarity("ab", "abcd"), Similarity { matching: 2, longer: 4 });
    assert_eq!(similarity("", "abc"), Similarity { matching: 0, longer: 3 });
}

#[test]
fn similarity_is_aligned_from_the_start() {
    assert_eq!(similarity("xabc", "abc"), Similarity { matching: 0, longer: 4 });
}

#[test]
fn threshold_is_exceeded_strictly() {
    assert!(similar_beyond_threshold(Similarity { matching: 9, longer: 10 }));
    assert!(!similar_beyond_threshold(Similarity { matching: 85, longer: 100 }));
    assert!(similar_beyond_threshold(Similarity { matching: 86, longer: 100 }));
    assert!(similar_beyond_threshold(Similarity { matching: 0, longer: 0 }));
    assert!(!similar_beyond_threshold(Similarity { matching: 1, longer: 2 }));
}

#[test]
fn budget_aborts_after_ceiling_failures() {
    let mut r = RetryController::new();
    assert_eq!(RETRY_CEILING, 3);
    assert_eq!(r.record_failure(), Verdict::Reflect);
    assert_eq!(r.record_failure(), Verdict::Reflect);
    assert_eq!(r.record_failure(), Verdict::Abort(AbortReason::BudgetExhausted));
}

#[test]
fn success_restarts_the_count() {
    let mut r = RetryController::new();
    assert_eq!(r.record_code_failure("a = 1"), Verdict::Reflect);
    assert_eq!(r.record_failure(), Verdict::Reflect);
    r.record_success();
    assert_eq!(r.failures(), 0);
    assert_eq!(r.attempts(), 0);
    assert_eq!(r.record_failure(), Verdict::Reflect);
    assert_eq!(r.failures(), 1);
}

#[test]
fn loop_breaker_catches_whitespace_variants() {
    let mut r = RetryController::new();
    let first = "def task():\n    return 1 / 0\ntask()";
    assert_eq!(r.record_code_failure(first), Verdict::Reflect);
    let second = "def task():\n    return 1 / 0\ntask()  \n";
    assert!(r.repeats_failed(second));
    assert!(!r.repeats_failed("import os\nos.listdir('.')"));
    assert_eq!(r.record_code_failure(second), Verdict::Abort(AbortReason::LoopDetected));
}

#[test]
fn scanner_stops_on_markers() {
    let mut s = Scanner::new(100, 1000);
    assert_eq!(s.on_token("Done", 1, false, false), ScanDecision::Continue);
    assert_eq!(s.on_token(" EXECUTION_", 2, false, false), ScanDecision::Continue);
    assert_eq!(s.on_token("COMPLETE", 3, false, false), ScanDecision::Stop(StopReason::ExecutionComplete));
    assert_eq!(s.response(), "Done EXECUTION_COMPLETE");
    let mut e = Scanner::new(100, 1000);
    assert_eq!(e.on_token("Hello sir. END_OF_TURN", 1, false, false), ScanDecision::Stop(StopReason::EndOfTurn));
}

#[test]
fn scanner_marker_priority_and_limits() {
    let mut s = Scanner::new(100, 1000);
    assert_eq!(
        s.on_token("END_OF_TURN EXECUTION_COMPLETE", 1, false, false),
        ScanDecision::Stop(StopReason::ExecutionComplete)
    );
    let mut g = Scanner::new(100, 1000);
    assert_eq!(g.on_token("", 1, true, false), ScanDecision::Stop(StopReason::EndOfGeneration));
    let mut c = Scanner::new(100, 10);
    assert_eq!(c.on_token("a", 10, false, false), ScanDecision::Stop(StopReason::ContextLimit));
    let mut m = Scanner::new(2, 1000);
    assert_eq!(m.on_token("a", 1, false, false), ScanDecision::Continue);
    assert_eq!(m.on_token("b", 2, false, false), ScanDecision::Stop(StopReason::MaxTokens));
    let mut x = Scanner::new(100, 1000);
    assert_eq!(x.on_token("a", 1, false, true), ScanDecision::Stop(StopReason::Interrupted));
    assert_eq!(x.pulled(), 0);
}

#[test]
fn scanner_marker_only_in_tail() {
    let mut s = Scanner::new(100, 1000);
    assert_eq!(s.on_token("EXECUTION_COMPLETE is a word I must not say", 1, false, false), ScanDecision::Continue);
    assert_eq!(s.on_token(" at all", 2, false, false), ScanDecision::Continue);
}

#[test]
fn scanner_closes_a_block_without_marker() {
    let mut s = Scanner::new(100, 1000);
    assert_eq!(s.on_token("```json\n{\"action\":\"execute\",\"code\":\"1\"}\n", 1, false, false), ScanDecision::Continue);
    assert_eq!(s.on_token("```", 2, false, false), ScanDecision::Continue);
    for i in 0..9 {
        assert_eq!(s.on_token(" ", 3 + i, false, false), ScanDecision::Continue);
    }
    assert_eq!(s.on_token(" ", 12, false, false), ScanDecision::Stop(StopReason::ExecutionComplete));
    assert!(s.response().ends_with("EXECUTION_COMPLETE"));
}

#[test]
fn user_prompt_wraps_the_input() {
    assert_eq!(
        user_turn_prompt("  open spotify \n"),
        "<end_of_turn>\n<start_of_turn>user\nopen spotify\n<end_of_turn>\n<start_of_turn>model\n"
    );
}

#[test]
fn scenario_code_runs_and_budget_resets() {
    let mut t = Turn::new();
    let response = "```json\n{\"action\":\"execute\",\"code\":\"\ndef task():\n    return {'status':'success'}\ntask()\n\"}\n```\nEXECUTION_COMPLETE";
    match t.on_stop(StopReason::ExecutionComplete, response) {
        Step::Dispatch(Request::RunCode(code)) => {
            assert_eq!(code, "def task():\n    return {'status':'success'}\ntask()")
        },
        _ => panic!("expected code to run"),
    }
    let step = t.on_outcome(&ExecutionOutcome { success: true, text: "{'status': 'success'}".to_string() });
    match step {
        Step::Continue(p) => assert_eq!(p, "\n\n[EXECUTION_RESULT]:\n{'status': 'success'}\n\n"),
        _ => panic!("expected the result to be injected"),
    }
    assert_eq!(t.failures(), 0);
}

#[test]
fn scenario_skill_search_is_dispatched() {
    let mut t = Turn::new();
    let response = "```json\n{\"action\":\"fast_execute\",\"code\":\"CHECKSKILLS-> open, launcher\"}\n```EXECUTION_COMPLETE";
    match t.on_stop(StopReason::ExecutionComplete, response) {
        Step::Dispatch(Request::FindSkills(k)) => assert_eq!(k, vec!["open".to_string(), "launcher".to_string()]),
        _ => panic!("expected a search"),
    }
}

#[test]
fn scenario_repeated_failing_code_aborts() {
    let mut t = Turn::new();
    match t.on_stop(StopReason::ExecutionComplete, &response_with_code("print(a+1)")) {
        Step::Dispatch(Request::RunCode(c)) => assert_eq!(c, "print(a+1)"),
        _ => panic!("expected code to run"),
    }
    match t.on_outcome(&failed("Python Error: NameError: name 'a' is not defined")) {
        Step::Continue(p) => {
            assert!(p.contains("NameError"));
            assert!(p.contains("print(a+1)"));
        },
        _ => panic!("expected a reflection"),
    }
    assert_eq!(ratio(similarity("print(a+2)", "print(a+1)")), 0.9);
    match t.on_stop(StopReason::ExecutionComplete, &response_with_code("print(a+2)")) {
        Step::End(TurnEnd::Aborted, Some(notice)) => assert!(notice.contains("LOOP_DETECTED")),
        _ => panic!("expected the loop breaker"),
    }
}

#[test]
fn scenario_end_of_turn_without_block() {
    let mut s = Scanner::new(100, 1000);
    assert_eq!(s.on_token("Welcome back, sir. ", 1, false, false), ScanDecision::Continue);
    let d = s.on_token("END_OF_TURN", 2, false, false);
    assert_eq!(d, ScanDecision::Stop(StopReason::EndOfTurn));
    let mut t = Turn::new();
    match t.on_stop(StopReason::EndOfTurn, &s.response()) {
        Step::End(TurnEnd::Finished, None) => {},
        _ => panic!("expected the turn to end"),
    }
    assert_eq!(t.failures(), 0);
}

#[test]
fn missing_block_and_bad_json_count_as_failures() {
    let mut t = Turn::new();
    match t.on_stop(StopReason::ExecutionComplete, "EXECUTION_COMPLETE") {
        Step::Continue(p) => assert!(p.contains("[PARSE_ERROR]")),
        _ => panic!("expected a parse prompt"),
    }
    match t.on_stop(StopReason::ExecutionComplete, "```json\n{oops\n```EXECUTION_COMPLETE") {
        Step::Continue(p) => assert!(p.contains("[PARSE_ERROR]")),
        _ => panic!("expected a parse prompt"),
    }
    match t.on_decoded(Err(DecodeError::MissingCode)) {
        Step::End(TurnEnd::Aborted, Some(n)) => assert!(n.contains("RETRY_LIMIT")),
        _ => panic!("expected the budget to run out"),
    }
}

#[test]
fn failed_events_count_against_the_budget() {
    let mut t = Turn::new();
    let ev = Action { kind: ActionKind::FastExecute, payload: "GETSKILL->x".to_string() };
    assert!(matches!(t.on_decoded(Ok(ev)), Step::Dispatch(Request::GetSkill(_))));
    match t.on_outcome(&failed("Skill not found: x")) {
        Step::Continue(p) => assert_eq!(p, "\n\n[EXECUTION_ERROR]:\nSkill not found: x\n\n"),
        _ => panic!("expected the error to be handed back"),
    }
    assert_eq!(t.failures(), 1);
}

#[test]
fn other_stops_end_the_turn() {
    let mut t = Turn::new();
    assert!(matches!(t.on_stop(StopReason::MaxTokens, "abc"), Step::End(TurnEnd::Truncated, None)));
    assert!(matches!(t.on_stop(StopReason::ContextLimit, "abc"), Step::End(TurnEnd::ContextFull, None)));
    assert!(matches!(t.on_stop(StopReason::Interrupted, "abc"), Step::End(TurnEnd::Interrupted, None)));
    assert!(matches!(t.on_stop(StopReason::EndOfGeneration, "abc"), Step::End(TurnEnd::Finished, None)));
}
