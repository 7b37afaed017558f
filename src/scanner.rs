//! The marker scanner: it follows the response as tokens arrive and decides,
//! after each token, whether generation stops and why.
use vstd::prelude::*;
use crate::text::{
    chars_of, contains, contains_spec, ends_with, ends_with_spec, push_all, push_str, slice_of,
    string_of,
};

verus! {

/// How many trailing characters are searched for a marker.
pub const TAIL_WINDOW: usize = 30;

/// How many more tokens are pulled, after a closed block with no marker, before
/// the block is taken as ready.
pub const LOOKAHEAD_TOKENS: usize = 10;

/// Why generation stopped.
#[derive(Clone, Copy, Debug, PartialEq, Eq, Structural)]
pub enum StopReason {
    /// The response holds an action that is ready to run.
    ExecutionComplete,
    /// The assistant declared the turn finished.
    EndOfTurn,
    /// The model signalled the end of its generation.
    EndOfGeneration,
    /// The shared context is full.
    ContextLimit,
    /// The token budget ran out; the response is truncated.
    MaxTokens,
    /// The user cancelled the turn.
    Interrupted,
}

/// What the scanner says after a token.
#[derive(Clone, Copy, Debug, PartialEq, Eq, Structural)]
pub enum ScanDecision {
    /// Pull the next token.
    Continue,
    /// Stop pulling tokens.
    Stop(StopReason),
}

pub open spec fn exec_marker() -> Seq<char> {
    "EXECUTION_COMPLETE"@
}

pub open spec fn end_marker() -> Seq<char> {
    "END_OF_TURN"@
}

pub open spec fn json_open() -> Seq<char> {
    "```json"@
}

pub open spec fn fence_close() -> Seq<char> {
    "```"@
}

/// The last `TAIL_WINDOW` characters of `s`, or all of it where it is shorter.
pub open spec fn tail_spec(s: Seq<char>) -> Seq<char> {
    if s.len() <= TAIL_WINDOW {
        s
    } else {
        s.subrange(s.len() - TAIL_WINDOW, s.len() as int)
    }
}

/// The scanner's state: the response so far, the tokens pulled, and the
/// tokens left to pull in a lookahead after a closed block.
pub struct Scanner {
    response: Vec<char>,
    pulled: usize,
    lookahead: Option<usize>,
    max_tokens: usize,
    context_ceiling: usize,
}

/// The abstract state of a scanner.
pub struct ScanState {
    pub response: Seq<char>,
    pub pulled: nat,
    pub lookahead: Option<nat>,
    pub max_tokens: nat,
    pub context_ceiling: nat,
}

/// The response after a token: an end-of-generation token brings no text.
pub open spec fn grown(st: ScanState, piece: Seq<char>, eog: bool) -> Seq<char> {
    if eog {
        st.response
    } else {
        st.response + piece
    }
}

/// The state and decision after one token, checked in this order: a
/// cancellation; a marker in the tail, `EXECUTION_COMPLETE` before
/// `END_OF_TURN`; the model's end of generation; the context ceiling; the
/// token budget. Then the lenient close: during a lookahead, its last token
/// appends `EXECUTION_COMPLETE` and stops; otherwise a tail that ends with a
/// closing fence, in a response that holds an opening JSON fence, starts a
/// lookahead.
pub open spec fn scan_spec(
    st: ScanState,
    piece: Seq<char>,
    position: nat,
    eog: bool,
    cancelled: bool,
) -> (ScanState, ScanDecision) {
    let resp = grown(st, piece, eog);
    let pulled = if st.pulled < st.max_tokens {
        st.pulled + 1
    } else {
        st.pulled
    };
    let next = ScanState { response: resp, pulled, ..st };
    let tail = tail_spec(resp);
    if cancelled {
        (st, ScanDecision::Stop(StopReason::Interrupted))
    } else if contains_spec(tail, exec_marker()) {
        (next, ScanDecision::Stop(StopReason::ExecutionComplete))
    } else if contains_spec(tail, end_marker()) {
        (next, ScanDecision::Stop(StopReason::EndOfTurn))
    } else if eog {
        (next, ScanDecision::Stop(StopReason::EndOfGeneration))
    } else if position >= st.context_ceiling {
        (next, ScanDecision::Stop(StopReason::ContextLimit))
    } else if pulled >= st.max_tokens {
        (next, ScanDecision::Stop(StopReason::MaxTokens))
    } else {
        match st.lookahead {
            Some(k) => if k <= 1 {
                (
                    ScanState { response: resp + exec_marker(), lookahead: None, ..next },
                    ScanDecision::Stop(StopReason::ExecutionComplete),
                )
            } else {
                (ScanState { lookahead: Some((k - 1) as nat), ..next }, ScanDecision::Continue)
            },
            None => if ends_with_spec(tail, fence_close()) && contains_spec(resp, json_open()) {
                (
                    ScanState { lookahead: Some(LOOKAHEAD_TOKENS as nat), ..next },
                    ScanDecision::Continue,
                )
            } else {
                (next, ScanDecision::Continue)
            },
        }
    }
}

impl View for Scanner {
    type V = ScanState;

    closed spec fn view(&self) -> ScanState {
        ScanState {
            response: self.response@,
            pulled: self.pulled as nat,
            lookahead: match self.lookahead {
                Some(k) => Some(k as nat),
                None => None,
            },
            max_tokens: self.max_tokens as nat,
            context_ceiling: self.context_ceiling as nat,
        }
    }
}

impl Scanner {
    /// A scanner for one generation cycle, with its token budget and the
    /// context position at which generation must stop.
    pub fn new(max_tokens: usize, context_ceiling: usize) -> (r: Scanner)
        ensures
            r@ == (ScanState {
                response: Seq::<char>::empty(),
                pulled: 0,
                lookahead: None,
                max_tokens: max_tokens as nat,
                context_ceiling: context_ceiling as nat,
            }),
    {
        let r = Scanner { response: Vec::new(), pulled: 0, lookahead: None, max_tokens, context_ceiling };
        assert(r@.response =~= Seq::<char>::empty());
        r
    }

    /// The response so far.
    pub fn response(&self) -> (r: String)
        ensures
            r@ == self@.response,
    {
        string_of(self.response.as_slice())
    }

    /// The tokens pulled so far.
    pub fn pulled(&self) -> (r: usize)
        ensures
            r == self@.pulled,
    {
        self.pulled
    }

    /// Takes one token: `piece` is its text, `position` the context position
    /// after it, `end_of_generation` whether it is the model's end signal,
    /// and `cancelled` whether the user's cancellation flag was set.
    pub fn on_token(
        &mut self,
        piece: &str,
        position: usize,
        end_of_generation: bool,
        cancelled: bool,
    ) -> (d: ScanDecision)
        ensures
            (final(self)@, d) == scan_spec(
                old(self)@,
                piece@,
                position as nat,
                end_of_generation,
                cancelled,
            ),
    {
        if cancelled {
            return ScanDecision::Stop(StopReason::Interrupted);
        }
        if !end_of_generation {
            push_str(&mut self.response, piece);
        }
        if self.pulled < self.max_tokens {
            self.pulled = self.pulled + 1;
        }
        let n = self.response.len();
        let start = if n <= TAIL_WINDOW {
            0
        } else {
            n - TAIL_WINDOW
        };
        let tail = slice_of(self.response.as_slice(), start, n);
        assert(tail@ == tail_spec(self.response@));
        let exec = chars_of("EXECUTION_COMPLETE");
        let end = chars_of("END_OF_TURN");
        if contains(tail.as_slice(), exec.as_slice()) {
            return ScanDecision::Stop(StopReason::ExecutionComplete);
        }
        if contains(tail.as_slice(), end.as_slice()) {
            return ScanDecision::Stop(StopReason::EndOfTurn);
        }
        if end_of_generation {
            return ScanDecision::Stop(StopReason::EndOfGeneration);
        }
        if position >= self.context_ceiling {
            return ScanDecision::Stop(StopReason::ContextLimit);
        }
        if self.pulled >= self.max_tokens {
            return ScanDecision::Stop(StopReason::MaxTokens);
        }
        match self.lookahead {
            Some(k) => {
                if k <= 1 {
                    push_all(&mut self.response, exec.as_slice());
                    self.lookahead = None;
                    ScanDecision::Stop(StopReason::ExecutionComplete)
                } else {
                    self.lookahead = Some(k - 1);
                    ScanDecision::Continue
                }
            },
            None => {
                let close = chars_of("```");
                let open = chars_of("```json");
                if ends_with(tail.as_slice(), close.as_slice()) && contains(
                    self.response.as_slice(),
                    open.as_slice(),
                ) {
                    self.lookahead = Some(LOOKAHEAD_TOKENS);
                }
                ScanDecision::Continue
            },
        }
    }
}

} // verus!
