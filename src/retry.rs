//! The retry and reflection controller: a failure budget per turn, and the
//! loop breaker that stops the model from retrying near-identical code.
use vstd::prelude::*;
use crate::text::chars_of;

verus! {

/// How many consecutive failures a turn may have before it is aborted.
pub const RETRY_CEILING: usize = 3;

/// The similarity, in percent, that a new attempt must exceed against a
/// failed one for the loop breaker to fire.
pub const SIMILARITY_THRESHOLD_PERCENT: usize = 85;

/// The similarity of two texts as a ratio: the positions, aligned from the
/// start up to the shorter length, where both hold the same character, over
/// the longer length. Two empty texts are fully similar: `matching ==
/// longer` is a ratio of one.
#[derive(Clone, Copy, Debug, PartialEq, Eq, Structural)]
pub struct Similarity {
    pub matching: usize,
    pub longer: usize,
}

/// The number of positions below `n` where `a` and `b` agree.
pub open spec fn agree_count(a: Seq<char>, b: Seq<char>, n: nat) -> nat
    decreases n,
{
    if n == 0 {
        0
    } else {
        agree_count(a, b, (n - 1) as nat) + if a[n - 1] == b[n - 1] {
            1nat
        } else {
            0nat
        }
    }
}

pub open spec fn min_len(a: Seq<char>, b: Seq<char>) -> nat {
    if a.len() <= b.len() {
        a.len()
    } else {
        b.len()
    }
}

pub open spec fn max_len(a: Seq<char>, b: Seq<char>) -> nat {
    if a.len() <= b.len() {
        b.len()
    } else {
        a.len()
    }
}

/// The similarity of `a` and `b`.
pub open spec fn similarity_spec(a: Seq<char>, b: Seq<char>) -> Similarity {
    Similarity { matching: agree_count(a, b, min_len(a, b)) as usize, longer: max_len(a, b) as usize }
}

/// Whether a ratio is one.
pub open spec fn is_full(s: Similarity) -> bool {
    s.matching == s.longer
}

/// Whether a ratio exceeds the loop breaker's threshold; an empty pair, at
/// a ratio of one, does.
pub open spec fn exceeds_threshold(s: Similarity) -> bool {
    s.longer == 0 || 100 * s.matching > SIMILARITY_THRESHOLD_PERCENT * s.longer
}

/// Whether `code` is near-identical to any of the failed attempts.
pub open spec fn repeats_any(code: Seq<char>, history: Seq<Seq<char>>) -> bool {
    exists|i: int|
        0 <= i < history.len() && exceeds_threshold(similarity_spec(code, #[trigger] history[i]))
}

proof fn lemma_agree_count_bound(a: Seq<char>, b: Seq<char>, n: nat)
    ensures
        agree_count(a, b, n) <= n,
    decreases n,
{
    if n > 0 {
        lemma_agree_count_bound(a, b, (n - 1) as nat);
    }
}

/// A text is fully similar to itself, the empty text included.
pub proof fn lemma_self_similarity_is_full(a: Seq<char>)
    ensures
        is_full(similarity_spec(a, a)),
        a.len() == 0 ==> similarity_spec(a, a) == (Similarity { matching: 0, longer: 0 }),
{
    lemma_agree_self(a, a.len());
}

proof fn lemma_agree_self(a: Seq<char>, n: nat)
    ensures
        agree_count(a, a, n) == n,
    decreases n,
{
    if n > 0 {
        lemma_agree_self(a, (n - 1) as nat);
    }
}

/// The similarity of two texts.
pub fn similarity(a: &str, b: &str) -> (r: Similarity)
    ensures
        r == similarity_spec(a@, b@),
{
    let x = chars_of(a);
    let y = chars_of(b);
    let short = if x.len() <= y.len() {
        x.len()
    } else {
        y.len()
    };
    let long = if x.len() <= y.len() {
        y.len()
    } else {
        x.len()
    };
    let mut matching: usize = 0;
    let mut i: usize = 0;
    while i < short
        invariant
            x@ == a@,
            y@ == b@,
            short == min_len(a@, b@),
            0 <= i <= short,
            matching == agree_count(a@, b@, i as nat),
        decreases short - i,
    {
        proof {
            lemma_agree_count_bound(a@, b@, i as nat);
        }
        if x[i] == y[i] {
            matching = matching + 1;
        }
        i = i + 1;
    }
    Similarity { matching, longer: long }
}

/// Whether a similarity exceeds the loop breaker's threshold.
pub fn similar_beyond_threshold(s: Similarity) -> (r: bool)
    ensures
        r == exceeds_threshold(s),
{
    if s.longer == 0 {
        return true;
    }
    (s.matching as u128) * 100 > (SIMILARITY_THRESHOLD_PERCENT as u128) * (s.longer as u128)
}

/// Why a turn was aborted.
#[derive(Clone, Copy, Debug, PartialEq, Eq, Structural)]
pub enum AbortReason {
    /// The failure budget ran out.
    BudgetExhausted,
    /// The new code repeats a failed attempt.
    LoopDetected,
}

/// What follows a failure.
#[derive(Clone, Copy, Debug, PartialEq, Eq, Structural)]
pub enum Verdict {
    /// Inject corrective context and let the model try again.
    Reflect,
    /// Stop retrying; the model is to explain the failure instead.
    Abort(AbortReason),
}

/// The retry state of one turn: the count of consecutive failures, and the
/// code of the attempts that failed since the last success.
pub struct RetryController {
    failures: usize,
    history: Vec<String>,
}

/// The failure count after a run of dispatch results (`true` for a success):
/// the failures since the last success.
pub open spec fn failures_after(results: Seq<bool>) -> nat
    decreases results.len(),
{
    if results.len() == 0 {
        0
    } else if results.last() {
        0
    } else {
        failures_after(results.drop_last()) + 1
    }
}

/// The failure count reaches the ceiling exactly when the last
/// `RETRY_CEILING` dispatches all failed; whatever came before the last
/// success does not count.
pub proof fn lemma_budget_counts_consecutive_failures(results: Seq<bool>)
    ensures
        failures_after(results) >= RETRY_CEILING <==> (results.len() >= RETRY_CEILING && forall|
            i: int,
        | results.len() - RETRY_CEILING <= i < results.len() ==> !#[trigger] results[i]),
        results.len() > 0 && results.last() ==> failures_after(results) == 0,
        failures_after(results.push(false)) == failures_after(results) + 1,
{
    let p = results.push(false);
    assert(p.drop_last() =~= results);
    lemma_failures_run(results, failures_after(results));
    if results.len() >= RETRY_CEILING && forall|i: int|
        results.len() - RETRY_CEILING <= i < results.len() ==> !#[trigger] results[i] {
        lemma_run_counts(results, RETRY_CEILING as nat);
    }
}

/// A failure count of `k` means the last `k` results are failures.
proof fn lemma_failures_run(results: Seq<bool>, k: nat)
    requires
        failures_after(results) == k,
    ensures
        k <= results.len(),
        forall|i: int| results.len() - k <= i < results.len() ==> !#[trigger] results[i],
    decreases results.len(),
{
    if results.len() > 0 && !results.last() {
        lemma_failures_run(results.drop_last(), (k - 1) as nat);
        assert forall|i: int| results.len() - k <= i < results.len() implies !#[trigger] results[i] by {
            if i < results.len() - 1 {
                assert(results[i] == results.drop_last()[i]);
            }
        }
    }
}

/// A run of `k` failures at the end gives a count of at least `k`.
proof fn lemma_run_counts(results: Seq<bool>, k: nat)
    requires
        k <= results.len(),
        forall|i: int| results.len() - k <= i < results.len() ==> !#[trigger] results[i],
    ensures
        failures_after(results) >= k,
    decreases k,
{
    if k > 0 {
        assert(!results[results.len() - 1]);
        let d = results.drop_last();
        assert forall|i: int| d.len() - (k - 1) <= i < d.len() implies !#[trigger] d[i] by {
            assert(d[i] == results[i]);
        }
        lemma_run_counts(d, (k - 1) as nat);
    }
}

impl View for RetryController {
    type V = (nat, Seq<Seq<char>>);

    closed spec fn view(&self) -> (nat, Seq<Seq<char>>) {
        (self.failures as nat, self.history@.map_values(|s: String| s@))
    }
}

impl RetryController {
    /// Whether the count stays within its ceiling.
    pub closed spec fn wf(&self) -> bool {
        self.failures <= RETRY_CEILING
    }

    /// A controller with no failure and no failed attempt.
    pub fn new() -> (r: RetryController)
        ensures
            r.wf(),
            r@.0 == 0,
            r@.1 == Seq::<Seq<char>>::empty(),
    {
        let r = RetryController { failures: 0, history: Vec::new() };
        assert(r@.1 =~= Seq::<Seq<char>>::empty());
        r
    }

    /// The count of consecutive failures.
    pub fn failures(&self) -> (r: usize)
        ensures
            r == self@.0,
    {
        self.failures
    }

    /// The number of failed attempts kept for the loop breaker.
    pub fn attempts(&self) -> (r: usize)
        ensures
            r == self@.1.len(),
    {
        self.history.len()
    }

    /// A success: the count and the failed attempts are forgotten.
    pub fn record_success(&mut self)
        ensures
            final(self).wf(),
            final(self)@.0 == 0,
            final(self)@.1 == Seq::<Seq<char>>::empty(),
    {
        self.failures = 0;
        self.history = Vec::new();
        assert(final(self)@.1 =~= Seq::<Seq<char>>::empty());
    }

    /// A failure that has no code (a block that could not be decoded, an
    /// event that failed): it counts, and aborts the turn once the count
    /// reaches the ceiling.
    pub fn record_failure(&mut self) -> (v: Verdict)
        requires
            old(self).wf(),
        ensures
            final(self).wf(),
            final(self)@.1 == old(self)@.1,
            old(self)@.0 + 1 >= RETRY_CEILING ==> v == Verdict::Abort(AbortReason::BudgetExhausted)
                && final(self)@.0 == RETRY_CEILING,
            old(self)@.0 + 1 < RETRY_CEILING ==> v == Verdict::Reflect && final(self)@.0 == old(
                self,
            )@.0 + 1,
    {
        if self.failures + 1 >= RETRY_CEILING {
            self.failures = RETRY_CEILING;
            Verdict::Abort(AbortReason::BudgetExhausted)
        } else {
            self.failures = self.failures + 1;
            Verdict::Reflect
        }
    }

    /// Whether `code` is near-identical to a failed attempt of this turn.
    pub fn repeats_failed(&self, code: &str) -> (r: bool)
        ensures
            r == repeats_any(code@, self@.1),
    {
        let mut i: usize = 0;
        while i < self.history.len()
            invariant
                0 <= i <= self.history@.len(),
                forall|j: int|
                    0 <= j < i ==> !exceeds_threshold(
                        similarity_spec(code@, #[trigger] self@.1[j]),
                    ),
            decreases self.history@.len() - i,
        {
            let s = similarity(code, self.history[i].as_str());
            assert(self@.1[i as int] == self.history@[i as int]@);
            if similar_beyond_threshold(s) {
                return true;
            }
            i = i + 1;
        }
        false
    }

    /// A failed run of `code`. The loop breaker fires first: where `code` is
    /// near-identical to an earlier failed attempt, the turn is aborted
    /// whatever budget is left. Otherwise the failure counts as any other,
    /// and a failure that does not abort keeps `code` as a failed attempt.
    pub fn record_code_failure(&mut self, code: &str) -> (v: Verdict)
        requires
            old(self).wf(),
        ensures
            final(self).wf(),
            repeats_any(code@, old(self)@.1) ==> v == Verdict::Abort(AbortReason::LoopDetected),
            !repeats_any(code@, old(self)@.1) && old(self)@.0 + 1 >= RETRY_CEILING ==> v
                == Verdict::Abort(AbortReason::BudgetExhausted),
            !repeats_any(code@, old(self)@.1) && old(self)@.0 + 1 < RETRY_CEILING ==> v
                == Verdict::Reflect && final(self)@.1 == old(self)@.1.push(code@),
            final(self)@.0 == if old(self)@.0 + 1 >= RETRY_CEILING {
                RETRY_CEILING as nat
            } else {
                old(self)@.0 + 1
            },
    {
        let repeat = self.repeats_failed(code);
        let v = self.record_failure();
        if repeat {
            return Verdict::Abort(AbortReason::LoopDetected);
        }
        if v == Verdict::Reflect {
            let ghost before = self@.1;
            self.history.push(String::from_str(code));
            assert(self@.1 =~= before.push(code@));
        }
        v
    }
}

} // verus!
