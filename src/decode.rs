//! The action decoder: it reads the repaired block into an action, and a
//! fast-execute payload into one of the built-in events.
use vstd::prelude::*;
use crate::json::{json_text_member, opt_view, text_member};
use crate::text::{
    chars_of, is_space, is_space_spec, same_text, slice_of,
    string_of, trim, trim_end_spec, trim_spec,
};

verus! {

/// What the action asks for.
#[derive(Clone, Copy, Debug, PartialEq, Eq, Structural)]
pub enum ActionKind {
    /// Run the payload as code.
    Execute,
    /// Run one of the built-in events that the payload names.
    FastExecute,
}

/// A decoded action: its kind and its payload (code, or an event string).
pub struct Action {
    pub kind: ActionKind,
    pub payload: String,
}

/// Why a block could not be decoded.
#[derive(Debug)]
pub enum DecodeError {
    /// The block is not JSON; the parser's message.
    NotJson(String),
    /// The block has no string member `action`.
    MissingAction,
    /// The `action` member names no known kind; its text.
    UnknownAction(String),
    /// The block has no string member `code`.
    MissingCode,
}

pub open spec fn action_key() -> Seq<char> {
    seq!['a', 'c', 't', 'i', 'o', 'n']
}

pub open spec fn code_member_key() -> Seq<char> {
    seq!['c', 'o', 'd', 'e']
}

pub open spec fn execute_word() -> Seq<char> {
    seq!['e', 'x', 'e', 'c', 'u', 't', 'e']
}

pub open spec fn fast_execute_word() -> Seq<char> {
    seq!['f', 'a', 's', 't', '_', 'e', 'x', 'e', 'c', 'u', 't', 'e']
}

/// The length of the run of whole blank lines at the start of `s`, scanning
/// from `i`, where `last` is the end of the last blank line seen so far.
pub open spec fn blank_lines_from(s: Seq<char>, i: int, last: int) -> int
    decreases s.len() - i,
{
    if i < 0 || i >= s.len() || !is_space_spec(s[i]) {
        last
    } else if s[i] == '\n' {
        blank_lines_from(s, i + 1, i + 1)
    } else {
        blank_lines_from(s, i + 1, last)
    }
}

/// Code as it is run: its leading blank lines and its trailing white space
/// cut off.
pub open spec fn code_payload_spec(c: Seq<char>) -> Seq<char> {
    trim_end_spec(c.skip(blank_lines_from(c, 0, 0)))
}

/// The payload of an action of the given kind, from the code member's text.
pub open spec fn payload_spec(kind: ActionKind, c: Seq<char>) -> Seq<char> {
    match kind {
        ActionKind::Execute => code_payload_spec(c),
        ActionKind::FastExecute => trim_spec(c),
    }
}

/// The kind that an `action` member's text names.
pub open spec fn kind_of(a: Seq<char>) -> Option<ActionKind> {
    if a == execute_word() {
        Some(ActionKind::Execute)
    } else if a == fast_execute_word() {
        Some(ActionKind::FastExecute)
    } else {
        None
    }
}

proof fn lemma_blank_lines_range(s: Seq<char>, i: int, last: int)
    requires
        0 <= last <= i <= s.len(),
    ensures
        last <= blank_lines_from(s, i, last) <= s.len(),
    decreases s.len() - i,
{
    if i < 0 || i >= s.len() || !is_space_spec(s[i]) {
    } else if s[i] == '\n' {
        lemma_blank_lines_range(s, i + 1, i + 1);
    } else {
        lemma_blank_lines_range(s, i + 1, last);
    }
}

/// Code with its leading blank lines and trailing white space cut off.
pub fn code_payload(c: &str) -> (r: String)
    ensures
        r@ == code_payload_spec(c@),
{
    let s = chars_of(c);
    let mut i: usize = 0;
    let mut last: usize = 0;
    while i < s.len() && is_space(s[i])
        invariant
            0 <= last <= i <= s@.len(),
            blank_lines_from(s@, i as int, last as int) == blank_lines_from(s@, 0, 0),
        decreases s@.len() - i,
    {
        if s[i] == '\n' {
            last = i + 1;
        }
        i = i + 1;
    }
    proof {
        lemma_blank_lines_range(s@, 0, 0);
    }
    let rest = slice_of(s.as_slice(), last, s.len());
    assert(rest@ == s@.skip(last as int));
    let t = crate::text::trim_end(rest.as_slice());
    string_of(t.as_slice())
}

/// What the members `action` and `code` of a block make of it.
pub open spec fn members_spec(
    action: Option<Seq<char>>,
    code: Option<Seq<char>>,
    r: Result<Action, DecodeError>,
) -> bool {
    match action {
        None => r matches Err(DecodeError::MissingAction),
        Some(a) => match kind_of(a) {
            None => r matches Err(DecodeError::UnknownAction(t)) && t@ == a,
            Some(k) => match code {
                None => r matches Err(DecodeError::MissingCode),
                Some(c) => r matches Ok(act) && act.kind == k && act.payload@ == payload_spec(k, c),
            },
        },
    }
}

/// The action that the members `action` and `code` of a block give, as read
/// from it: the kind that `action` names, and the code member as payload
/// (for code, without its leading blank lines and trailing white space; for
/// an event, trimmed).
pub fn action_from_members(action: Option<String>, code: Option<String>) -> (r: Result<
    Action,
    DecodeError,
>)
    ensures
        members_spec(opt_view(action), opt_view(code), r),
{
    let a = match action {
        Some(a) => a,
        None => return Err(DecodeError::MissingAction),
    };
    let ac = chars_of(a.as_str());
    let exec_word: [char; 7] = ['e', 'x', 'e', 'c', 'u', 't', 'e'];
    let fast_word: [char; 12] = ['f', 'a', 's', 't', '_', 'e', 'x', 'e', 'c', 'u', 't', 'e'];
    assert(exec_word@ == execute_word());
    assert(fast_word@ == fast_execute_word());
    let kind = if same_text(ac.as_slice(), exec_word.as_slice()) {
        ActionKind::Execute
    } else if same_text(ac.as_slice(), fast_word.as_slice()) {
        ActionKind::FastExecute
    } else {
        return Err(DecodeError::UnknownAction(a));
    };
    let c = match code {
        Some(c) => c,
        None => return Err(DecodeError::MissingCode),
    };
    let payload = match kind {
        ActionKind::Execute => code_payload(c.as_str()),
        ActionKind::FastExecute => {
            let cc = chars_of(c.as_str());
            let t = trim(cc.as_slice());
            string_of(t.as_slice())
        },
    };
    Ok(Action { kind, payload })
}

/// What decoding a block gives, over what a JSON reading of it holds.
pub open spec fn decode_spec(block: Seq<char>, r: Result<Action, DecodeError>) -> bool {
    match json_text_member(block, action_key()) {
        None => r is Err && r->Err_0 is NotJson,
        Some(None) => r matches Err(DecodeError::MissingAction),
        Some(Some(a)) => match kind_of(a) {
            None => members_spec(Some(a), None, r),
            Some(k) => match json_text_member(block, code_member_key()) {
                None => r is Err && r->Err_0 is NotJson,
                Some(m) => members_spec(Some(a), m, r),
            },
        },
    }
}

/// Decodes a repaired block into an action; a block that is not JSON, lacks
/// a member or names no known kind is an error.
pub fn decode_action(block: &str) -> (r: Result<Action, DecodeError>)
    ensures
        decode_spec(block@, r),
{
    proof {
        reveal_strlit("action");
        reveal_strlit("code");
    }
    assert("action"@ == action_key());
    assert("code"@ == code_member_key());
    let a = match text_member(block, "action") {
        Ok(a) => a,
        Err(msg) => return Err(DecodeError::NotJson(msg)),
    };
    if a.is_none() {
        return Err(DecodeError::MissingAction);
    }
    let c = match text_member(block, "code") {
        Ok(c) => c,
        Err(msg) => {
            let r = action_from_members(a, None);
            return match r {
                Ok(_) => Err(DecodeError::NotJson(msg)),
                Err(DecodeError::MissingCode) => Err(DecodeError::NotJson(msg)),
                Err(e) => Err(e),
            };
        },
    };
    action_from_members(a, c)
}

} // verus!
