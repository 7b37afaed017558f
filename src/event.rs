//! Fast-execute events: the short payloads that name a built-in operation.
use vstd::prelude::*;
use crate::decode::{Action, ActionKind};
use crate::text::{
    chars_of, slice_of, starts_with, starts_with_spec, string_of, trim, trim_spec,
};

verus! {

/// What the dispatcher is to do for an action: the collaborator to call and
/// with what.
pub enum Request {
    /// Run code on the code-execution collaborator.
    RunCode(String),
    /// List every stored skill.
    ListSkills,
    /// List the stored skills that match any of these keywords.
    FindSkills(Vec<String>),
    /// Fetch one skill by name.
    GetSkill(String),
    /// Delete one skill by name.
    DeleteSkill(String),
    /// Run a host command invocation, given as written.
    RunCommand(String),
    /// A fast-execute payload that names no known event.
    Unknown(String),
}

/// The views of a sequence of strings.
pub open spec fn texts(v: Seq<String>) -> Seq<Seq<char>> {
    v.map_values(|k: String| k@)
}

pub open spec fn event_prefix() -> Seq<char> {
    seq!['_', 'e', 'v', 'e', 'n', 't', '_']
}

pub open spec fn check_skills_word() -> Seq<char> {
    seq!['C', 'H', 'E', 'C', 'K', 'S', 'K', 'I', 'L', 'L', 'S']
}

pub open spec fn arrow() -> Seq<char> {
    seq!['-', '>']
}

pub open spec fn get_skill_word() -> Seq<char> {
    seq!['G', 'E', 'T', 'S', 'K', 'I', 'L', 'L']
}

pub open spec fn delete_skill_word() -> Seq<char> {
    seq!['D', 'E', 'L', 'E', 'T', 'E', 'S', 'K', 'I', 'L', 'L']
}

pub open spec fn command_word() -> Seq<char> {
    seq!['c', 'm', 'd', 'l', 'i', 'b', '.', 'r', 'u', 'n', '_', 'c', 'o', 'm', 'm', 'a', 'n', 'd']
}

/// An event without its optional `_event_` prefix.
pub open spec fn event_body(s: Seq<char>) -> Seq<char> {
    if starts_with_spec(s, event_prefix()) {
        s.skip(7)
    } else {
        s
    }
}

/// The pieces of `s` between commas, `cur` being the piece read so far.
pub open spec fn split_commas(s: Seq<char>, cur: Seq<char>) -> Seq<Seq<char>>
    decreases s.len(),
{
    if s.len() == 0 {
        seq![cur]
    } else if s[0] == ',' {
        seq![cur] + split_commas(s.skip(1), seq![])
    } else {
        split_commas(s.skip(1), cur.push(s[0]))
    }
}

/// The keywords of a search: the comma-separated pieces, each trimmed.
pub open spec fn keywords_spec(s: Seq<char>) -> Seq<Seq<char>> {
    split_commas(trim_spec(s), seq![]).map_values(|k: Seq<char>| trim_spec(k))
}

/// What an event string asks for.
pub open spec fn event_spec(s: Seq<char>, r: Request) -> bool {
    let b = event_body(s);
    let search = check_skills_word() + arrow();
    let get = get_skill_word() + arrow();
    let delete = delete_skill_word() + arrow();
    if starts_with_spec(b, search) {
        r matches Request::FindSkills(k) && texts(k@) == keywords_spec(b.skip(13))
    } else if starts_with_spec(b, check_skills_word()) {
        r is ListSkills
    } else if starts_with_spec(b, get) {
        r matches Request::GetSkill(n) && n@ == trim_spec(b.skip(10))
    } else if starts_with_spec(b, delete) {
        r matches Request::DeleteSkill(n) && n@ == trim_spec(b.skip(13))
    } else if starts_with_spec(s, command_word()) {
        r matches Request::RunCommand(c) && c@ == s
    } else {
        r matches Request::Unknown(e) && e@ == s
    }
}

/// What the dispatcher is to do for an action.
pub open spec fn request_spec(kind: ActionKind, payload: Seq<char>, r: Request) -> bool {
    match kind {
        ActionKind::Execute => r matches Request::RunCode(c) && c@ == payload,
        ActionKind::FastExecute => event_spec(payload, r),
    }
}

/// Splits `s` at its commas and trims each piece.
pub fn split_keywords(s: &[char]) -> (r: Vec<String>)
    ensures
        texts(r@) == split_commas(s@, seq![]).map_values(|k: Seq<char>| trim_spec(k)),
{
    let mut out: Vec<String> = Vec::new();
    let mut cur: Vec<char> = Vec::new();
    let mut i: usize = 0;
    assert(s@.skip(0) =~= s@);
    while i < s.len()
        invariant
            0 <= i <= s@.len(),
            texts(out@) + split_commas(s@.skip(i as int), cur@).map_values(
                |k: Seq<char>| trim_spec(k),
            ) == split_commas(s@, seq![]).map_values(|k: Seq<char>| trim_spec(k)),
        decreases s@.len() - i,
    {
        let ghost rest = s@.skip(i as int);
        assert(rest.skip(1) =~= s@.skip(i + 1));
        if s[i] == ',' {
            let t = trim(cur.as_slice());
            let piece = string_of(t.as_slice());
            let ghost before = texts(out@);
            out.push(piece);
            assert(texts(out@) =~= before.push(trim_spec(cur@)));
            assert(split_commas(rest, cur@) == seq![cur@] + split_commas(rest.skip(1), seq![]));
            assert(split_commas(rest, cur@).map_values(|k: Seq<char>| trim_spec(k)) =~= seq![
                trim_spec(cur@),
            ] + split_commas(rest.skip(1), seq![]).map_values(|k: Seq<char>| trim_spec(k)));
            assert(texts(out@) + split_commas(rest.skip(1), seq![]).map_values(
                |k: Seq<char>| trim_spec(k),
            ) =~= before + split_commas(rest, cur@).map_values(|k: Seq<char>| trim_spec(k)));
            cur = Vec::new();
        } else {
            cur.push(s[i]);
        }
        i = i + 1;
    }
    let t = trim(cur.as_slice());
    let ghost before = texts(out@);
    out.push(string_of(t.as_slice()));
    assert(texts(out@) =~= before.push(trim_spec(cur@)));
    assert(split_commas(s@.skip(i as int), cur@) == seq![cur@]);
    assert(texts(out@) =~= before + split_commas(s@.skip(i as int), cur@).map_values(
        |k: Seq<char>| trim_spec(k),
    ));
    out
}

/// Reads a fast-execute event: an optional `_event_` prefix, then
/// `CHECKSKILLS-><keywords>` (a search by comma-separated keywords),
/// `CHECKSKILLS` (every skill), `GETSKILL-><name>` or `DELETESKILL-><name>`;
/// or a `cmdlib.run_command` invocation, passed on as written. Anything else
/// is an unknown event.
pub fn handle_fast_execute(event_code: &str) -> (r: Request)
    ensures
        event_spec(event_code@, r),
{
    let s = chars_of(event_code);
    let prefix: [char; 7] = ['_', 'e', 'v', 'e', 'n', 't', '_'];
    let search: [char; 13] = ['C', 'H', 'E', 'C', 'K', 'S', 'K', 'I', 'L', 'L', 'S', '-', '>'];
    let list: [char; 11] = ['C', 'H', 'E', 'C', 'K', 'S', 'K', 'I', 'L', 'L', 'S'];
    let get: [char; 10] = ['G', 'E', 'T', 'S', 'K', 'I', 'L', 'L', '-', '>'];
    let delete: [char; 13] = ['D', 'E', 'L', 'E', 'T', 'E', 'S', 'K', 'I', 'L', 'L', '-', '>'];
    let command: [char; 18] = [
        'c', 'm', 'd', 'l', 'i', 'b', '.', 'r', 'u', 'n', '_', 'c', 'o', 'm', 'm', 'a', 'n', 'd',
    ];
    assert(prefix@ == event_prefix());
    assert(search@ == check_skills_word() + arrow());
    assert(list@ == check_skills_word());
    assert(get@ == get_skill_word() + arrow());
    assert(delete@ == delete_skill_word() + arrow());
    assert(command@ == command_word());
    let body = if starts_with(s.as_slice(), prefix.as_slice()) {
        slice_of(s.as_slice(), 7, s.len())
    } else {
        slice_of(s.as_slice(), 0, s.len())
    };
    assert(body@ == event_body(s@));
    if starts_with(body.as_slice(), search.as_slice()) {
        let rest = slice_of(body.as_slice(), 13, body.len());
        let filter = trim(rest.as_slice());
        Request::FindSkills(split_keywords(filter.as_slice()))
    } else if starts_with(body.as_slice(), list.as_slice()) {
        Request::ListSkills
    } else if starts_with(body.as_slice(), get.as_slice()) {
        let rest = slice_of(body.as_slice(), 10, body.len());
        let name = trim(rest.as_slice());
        Request::GetSkill(string_of(name.as_slice()))
    } else if starts_with(body.as_slice(), delete.as_slice()) {
        let rest = slice_of(body.as_slice(), 13, body.len());
        let name = trim(rest.as_slice());
        Request::DeleteSkill(string_of(name.as_slice()))
    } else if starts_with(s.as_slice(), command.as_slice()) {
        Request::RunCommand(string_of(s.as_slice()))
    } else {
        Request::Unknown(string_of(s.as_slice()))
    }
}

/// What the dispatcher is to do for a decoded action: run its code, or the
/// event that its payload names.
pub fn plan_dispatch(action: &Action) -> (r: Request)
    ensures
        request_spec(action.kind, action.payload@, r),
{
    match action.kind {
        ActionKind::Execute => Request::RunCode(action.payload.clone()),
        ActionKind::FastExecute => handle_fast_execute(action.payload.as_str()),
    }
}

} // verus!
