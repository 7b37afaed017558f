//! The action block extractor: it finds the fenced JSON block in a response and
//! repairs the real line breaks that the model writes inside the `code` value.
use vstd::prelude::*;
use crate::decode::{action_key, code_member_key, execute_word, fast_execute_word, kind_of};
use crate::json::{json_text_member, opt_view, text_member};
use crate::text::{
    same_text, chars_of, find_from, find_spec, slice_of, string_of, trim, trim_spec, push_all,
};

verus! {

/// The opening fence of an action block.
pub open spec fn json_fence() -> Seq<char> {
    seq!['`', '`', '`', 'j', 's', 'o', 'n']
}

/// The closing fence of an action block.
pub open spec fn fence() -> Seq<char> {
    seq!['`', '`', '`']
}

/// The key that introduces the code value.
pub open spec fn code_key() -> Seq<char> {
    seq!['"', 'c', 'o', 'd', 'e', '"', ':']
}

pub open spec fn quote() -> Seq<char> {
    seq!['"']
}

/// Line feed, carriage return and tab: the characters that a JSON string
/// cannot hold raw.
pub open spec fn is_break(c: char) -> bool {
    c == '\n' || c == '\r' || c == '\t'
}

/// The bounds of the first fenced JSON block's inner text: from just after the
/// first opening fence up to the first closing fence after it.
pub open spec fn block_bounds(s: Seq<char>) -> Option<(int, int)> {
    match find_spec(s, json_fence(), 0) {
        Some(open) => match find_spec(s, fence(), open + 7) {
            Some(close) => Some((open + 7, close)),
            None => None,
        },
        None => None,
    }
}

/// The first fenced JSON block of a response, trimmed.
pub open spec fn action_block_spec(s: Seq<char>) -> Option<Seq<char>> {
    match block_bounds(s) {
        Some((a, b)) => Some(trim_spec(s.subrange(a, b))),
        None => None,
    }
}

/// The index of the first quote from `i` on that is not escaped, where a
/// backslash escapes the character after it and `escaped` says whether the
/// character at `i` is escaped.
pub open spec fn closing_quote(s: Seq<char>, i: int, escaped: bool) -> Option<int>
    decreases s.len() - i,
{
    if i < 0 || i >= s.len() {
        None
    } else if escaped {
        closing_quote(s, i + 1, false)
    } else if s[i] == '\\' {
        closing_quote(s, i + 1, true)
    } else if s[i] == '"' {
        Some(i)
    } else {
        closing_quote(s, i + 1, false)
    }
}

/// The bounds of the code value's text, between its quotes, if the key and
/// both quotes are there.
pub open spec fn code_bounds(s: Seq<char>) -> Option<(int, int)> {
    match find_spec(s, code_key(), 0) {
        Some(k) => match find_spec(s, quote(), k + 7) {
            Some(q) => match closing_quote(s, q + 1, false) {
                Some(e) => Some((q + 1, e)),
                None => None,
            },
            None => None,
        },
        None => None,
    }
}

/// What one character of the code value becomes: a carriage return is
/// dropped, a line feed and a tab become their escapes.
pub open spec fn escape_char(c: char) -> Seq<char> {
    if c == '\r' {
        seq![]
    } else if c == '\n' {
        seq!['\\', 'n']
    } else if c == '\t' {
        seq!['\\', 't']
    } else {
        seq![c]
    }
}

/// The code value with its raw line breaks and tabs escaped.
pub open spec fn escape_code(s: Seq<char>) -> Seq<char>
    decreases s.len(),
{
    if s.len() == 0 {
        seq![]
    } else {
        escape_code(s.drop_last()) + escape_char(s.last())
    }
}

/// A block with its code value repaired; a block without a code key or
/// without both quotes is left as it is.
pub open spec fn repair_spec(s: Seq<char>) -> Seq<char> {
    match code_bounds(s) {
        Some((a, b)) => s.subrange(0, a) + escape_code(s.subrange(a, b)) + s.subrange(b, s.len() as int),
        None => s,
    }
}

/// What a JSON escape `\e` stands for (`\u` is left as the letter, which does
/// not matter to what is stated with it here).
pub open spec fn unescape_char(e: char) -> char {
    if e == 'n' {
        '\n'
    } else if e == 't' {
        '\t'
    } else if e == 'r' {
        '\r'
    } else if e == 'b' {
        '\u{8}'
    } else if e == 'f' {
        '\u{c}'
    } else {
        e
    }
}

/// The text that the body of a JSON string stands for: each backslash pair
/// is read as its escape, every other character as itself.
pub open spec fn decode_text(t: Seq<char>) -> Seq<char>
    decreases t.len(),
{
    if t.len() == 0 {
        seq![]
    } else if t[0] == '\\' && t.len() >= 2 {
        seq![unescape_char(t[1])] + decode_text(t.skip(2))
    } else {
        seq![t[0]] + decode_text(t.skip(1))
    }
}

/// Whether every backslash of `s` escapes a following character that is not
/// a line break or a tab.
pub open spec fn escapes_paired(s: Seq<char>) -> bool
    decreases s.len(),
{
    if s.len() == 0 {
        true
    } else if s[0] == '\\' {
        s.len() >= 2 && !is_break(s[1]) && escapes_paired(s.skip(2))
    } else {
        escapes_paired(s.skip(1))
    }
}

/// `s` without its carriage returns.
pub open spec fn remove_cr(s: Seq<char>) -> Seq<char>
    decreases s.len(),
{
    if s.len() == 0 {
        seq![]
    } else if s[0] == '\r' {
        remove_cr(s.skip(1))
    } else {
        seq![s[0]] + remove_cr(s.skip(1))
    }
}

/// Whether `t` holds no raw line feed, carriage return or tab.
pub open spec fn no_raw_breaks(t: Seq<char>) -> bool {
    forall|i: int| 0 <= i < t.len() ==> !is_break(#[trigger] t[i])
}

pub proof fn lemma_escape_code_append(a: Seq<char>, b: Seq<char>)
    ensures
        escape_code(a + b) == escape_code(a) + escape_code(b),
    decreases b.len(),
{
    if b.len() == 0 {
        assert(a + b =~= a);
    } else {
        lemma_escape_code_append(a, b.drop_last());
        assert((a + b).drop_last() =~= a + b.drop_last());
        assert((a + b).last() == b.last());
    }
}

proof fn lemma_escape_code_front(s: Seq<char>)
    requires
        s.len() > 0,
    ensures
        escape_code(s) == escape_char(s[0]) + escape_code(s.skip(1)),
{
    lemma_escape_code_append(seq![s[0]], s.skip(1));
    assert(seq![s[0]] + s.skip(1) =~= s);
    assert(seq![s[0]].drop_last() =~= Seq::<char>::empty());
    assert(escape_code(Seq::<char>::empty()) =~= Seq::<char>::empty());
    assert(seq![s[0]].last() == s[0]);
    assert(escape_code(seq![s[0]]) == escape_code(seq![s[0]].drop_last()) + escape_char(s[0]));
    assert(escape_code(seq![s[0]]) =~= escape_char(s[0]));
}

proof fn lemma_decode_pair(c: char, e: char, rest: Seq<char>)
    requires
        c == '\\',
    ensures
        decode_text(seq![c, e] + rest) == seq![unescape_char(e)] + decode_text(rest),
{
    let t = seq![c, e] + rest;
    assert(t.skip(2) =~= rest);
}

proof fn lemma_decode_single(c: char, rest: Seq<char>)
    requires
        c != '\\',
    ensures
        decode_text(seq![c] + rest) == seq![c] + decode_text(rest),
{
    let t = seq![c] + rest;
    assert(t.skip(1) =~= rest);
}

/// Escaping the code value leaves no raw line break or tab in it, and keeps
/// what it stands for: read as the body of a JSON string, the escaped value
/// gives the same text as the value the model wrote, carriage returns left
/// out, so its lines can be told apart exactly as before.
pub proof fn lemma_escaped_code_keeps_lines(s: Seq<char>)
    requires
        escapes_paired(s),
    ensures
        no_raw_breaks(escape_code(s)),
        decode_text(escape_code(s)) == decode_text(remove_cr(s)),
    decreases s.len(),
{
    if s.len() == 0 {
        assert(escape_code(s) =~= Seq::<char>::empty());
        assert(remove_cr(s) =~= Seq::<char>::empty());
    } else if s[0] == '\\' {
        let e = s[1];
        let rest = s.skip(2);
        lemma_escaped_code_keeps_lines(rest);
        lemma_escape_code_front(s);
        lemma_escape_code_front(s.skip(1));
        assert(s.skip(1).skip(1) =~= rest);
        assert(s.skip(1)[0] == e);
        assert(escape_char(e) =~= seq![e]);
        assert(escape_code(s) =~= seq!['\\', e] + escape_code(rest));
        lemma_decode_pair('\\', e, escape_code(rest));
        assert(remove_cr(s) =~= seq!['\\'] + remove_cr(s.skip(1)));
        assert(remove_cr(s.skip(1)) =~= seq![e] + remove_cr(rest));
        assert(remove_cr(s) =~= seq!['\\', e] + remove_cr(rest));
        lemma_decode_pair('\\', e, remove_cr(rest));
        let t = escape_code(s);
        assert forall|i: int| 0 <= i < t.len() implies !is_break(#[trigger] t[i]) by {
            if i >= 2 {
                assert(t[i] == escape_code(rest)[i - 2]);
            }
        }
    } else {
        let c = s[0];
        let rest = s.skip(1);
        lemma_escaped_code_keeps_lines(rest);
        lemma_escape_code_front(s);
        let t = escape_code(s);
        let k = escape_char(c).len();
        assert forall|i: int| 0 <= i < t.len() implies !is_break(#[trigger] t[i]) by {
            if i >= k {
                assert(t[i] == escape_code(rest)[i - k]);
            }
        }
        if c == '\r' {
            assert(escape_code(s) =~= escape_code(rest));
        } else if c == '\n' {
            assert(escape_code(s) =~= seq!['\\', 'n'] + escape_code(rest));
            lemma_decode_pair('\\', 'n', escape_code(rest));
            lemma_decode_single(c, remove_cr(rest));
        } else if c == '\t' {
            assert(escape_code(s) =~= seq!['\\', 't'] + escape_code(rest));
            lemma_decode_pair('\\', 't', escape_code(rest));
            lemma_decode_single(c, remove_cr(rest));
        } else {
            assert(escape_code(s) =~= seq![c] + escape_code(rest));
            lemma_decode_single(c, escape_code(rest));
            lemma_decode_single(c, remove_cr(rest));
        }
    }
}

/// The bounds of the first fenced JSON block's inner text.
pub fn block_bounds_exec(s: &[char]) -> (r: Option<(usize, usize)>)
    ensures
        match r {
            Some((a, b)) => block_bounds(s@) == Some((a as int, b as int)) && a <= b <= s@.len(),
            None => block_bounds(s@) is None,
        },
{
    let open_fence: [char; 7] = ['`', '`', '`', 'j', 's', 'o', 'n'];
    let close_fence: [char; 3] = ['`', '`', '`'];
    assert(open_fence@ == json_fence());
    assert(close_fence@ == fence());
    let _n = s.len();
    match find_from(s, open_fence.as_slice(), 0) {
        Some(open) => {
            proof {
                crate::text::lemma_find_spec(s@, json_fence(), 0);
            }
            let start = open + 7;
            match find_from(s, close_fence.as_slice(), start) {
                Some(close) => {
                    proof {
                        crate::text::lemma_find_spec(s@, fence(), start as int);
                    }
                    Some((start, close))
                },
                None => None,
            }
        },
        None => None,
    }
}

/// The first fenced JSON block of `response` (from its opening fence, tagged
/// `json`, up to the next closing fence), trimmed; `None` where there is none.
pub fn find_action_block(response: &str) -> (r: Option<String>)
    ensures
        match r {
            Some(b) => action_block_spec(response@) == Some(b@),
            None => action_block_spec(response@) is None,
        },
{
    let s = chars_of(response);
    match block_bounds_exec(s.as_slice()) {
        Some((a, b)) => {
            let inner = slice_of(s.as_slice(), a, b);
            let t = trim(inner.as_slice());
            Some(string_of(t.as_slice()))
        },
        None => None,
    }
}

/// The index of the first unescaped quote from `from` on.
pub fn closing_quote_exec(s: &[char], from: usize) -> (r: Option<usize>)
    ensures
        match r {
            Some(e) => closing_quote(s@, from as int, false) == Some(e as int),
            None => closing_quote(s@, from as int, false) is None,
        },
{
    let mut i: usize = from;
    let mut escaped = false;
    while i < s.len()
        invariant
            from <= i,
            closing_quote(s@, i as int, escaped) == closing_quote(s@, from as int, false),
        decreases s@.len() - i,
    {
        if escaped {
            escaped = false;
        } else if s[i] == '\\' {
            escaped = true;
        } else if s[i] == '"' {
            return Some(i);
        }
        i = i + 1;
    }
    None
}

/// The bounds of the code value's text in a block.
pub fn code_bounds_exec(s: &[char]) -> (r: Option<(usize, usize)>)
    ensures
        match r {
            Some((a, b)) => code_bounds(s@) == Some((a as int, b as int)) && a <= b < s@.len(),
            None => code_bounds(s@) is None,
        },
{
    let key: [char; 7] = ['"', 'c', 'o', 'd', 'e', '"', ':'];
    let q: [char; 1] = ['"'];
    assert(key@ == code_key());
    assert(q@ == quote());
    let _n = s.len();
    let k = match find_from(s, key.as_slice(), 0) {
        Some(k) => k,
        None => return None,
    };
    proof {
        crate::text::lemma_find_spec(s@, code_key(), 0);
    }
    let open = match find_from(s, q.as_slice(), k + 7) {
        Some(o) => o,
        None => return None,
    };
    proof {
        crate::text::lemma_find_spec(s@, quote(), k + 7);
    }
    match closing_quote_exec(s, open + 1) {
        Some(e) => {
            proof {
                lemma_closing_quote_range(s@, open + 1, false);
            }
            Some((open + 1, e))
        },
        None => None,
    }
}

proof fn lemma_closing_quote_range(s: Seq<char>, i: int, escaped: bool)
    ensures
        closing_quote(s, i, escaped) matches Some(e) ==> i <= e < s.len(),
    decreases s.len() - i,
{
    if i < 0 || i >= s.len() {
    } else {
        lemma_closing_quote_range(s, i + 1, false);
        lemma_closing_quote_range(s, i + 1, true);
    }
}

/// Appends the escaped form of `c` to `out`.
fn push_escaped(out: &mut Vec<char>, c: char)
    ensures
        final(out)@ == old(out)@ + escape_char(c),
{
    if c == '\r' {
        assert(old(out)@ + escape_char(c) =~= old(out)@);
    } else if c == '\n' {
        out.push('\\');
        out.push('n');
        assert(final(out)@ =~= old(out)@ + escape_char(c));
    } else if c == '\t' {
        out.push('\\');
        out.push('t');
        assert(final(out)@ =~= old(out)@ + escape_char(c));
    } else {
        out.push(c);
        assert(final(out)@ =~= old(out)@ + escape_char(c));
    }
}

/// Repairs the code value of an action block: within the value, and nowhere
/// else, carriage returns are dropped and real line feeds and tabs become
/// `\n` and `\t`. A block without a `"code":` key, or without the value's
/// opening or closing quote, comes back as it is.
pub fn fix_json_multiline_strings(json: &str) -> (r: String)
    ensures
        r@ == repair_spec(json@),
{
    let s = chars_of(json);
    match code_bounds_exec(s.as_slice()) {
        Some((a, b)) => {
            let mut out = slice_of(s.as_slice(), 0, a);
            let mut i: usize = a;
            while i < b
                invariant
                    a <= i <= b <= s@.len(),
                    out@ == s@.subrange(0, a as int) + escape_code(s@.subrange(a as int, i as int)),
                decreases b - i,
            {
                let ghost before = out@;
                push_escaped(&mut out, s[i]);
                proof {
                    let w = s@.subrange(a as int, i + 1);
                    assert(w.drop_last() =~= s@.subrange(a as int, i as int));
                    assert(w.last() == s@[i as int]);
                }
                i = i + 1;
            }
            let tail = slice_of(s.as_slice(), b, s.len());
            push_all(&mut out, tail.as_slice());
            string_of(out.as_slice())
        },
        None => string_of(s.as_slice()),
    }
}

/// The text with every raw line feed, carriage return and tab inside a
/// JSON string escaped, `in_string` saying whether the text starts inside
/// one. A quote opens or closes a string; a backslash keeps itself and the
/// character after it as they are.
pub open spec fn escape_in_strings(s: Seq<char>, in_string: bool) -> Seq<char>
    decreases s.len(),
{
    if s.len() == 0 {
        seq![]
    } else if s[0] == '\\' {
        if s.len() >= 2 {
            seq![s[0], s[1]] + escape_in_strings(s.skip(2), in_string)
        } else {
            seq![s[0]]
        }
    } else if s[0] == '"' {
        seq![s[0]] + escape_in_strings(s.skip(1), !in_string)
    } else if in_string && s[0] == '\n' {
        seq!['\\', 'n'] + escape_in_strings(s.skip(1), in_string)
    } else if in_string && s[0] == '\r' {
        seq!['\\', 'r'] + escape_in_strings(s.skip(1), in_string)
    } else if in_string && s[0] == '\t' {
        seq!['\\', 't'] + escape_in_strings(s.skip(1), in_string)
    } else {
        seq![s[0]] + escape_in_strings(s.skip(1), in_string)
    }
}

/// Escapes the raw line feeds, carriage returns and tabs that stand inside
/// JSON strings (between unescaped quotes); outside strings nothing changes.
pub fn escape_newlines_in_json_strings(input: &str) -> (r: String)
    ensures
        r@ == escape_in_strings(input@, false),
{
    let s = chars_of(input);
    let mut out: Vec<char> = Vec::new();
    let mut in_string = false;
    let mut i: usize = 0;
    assert(s@.skip(0) =~= s@);
    while i < s.len()
        invariant
            0 <= i <= s@.len(),
            s@ == input@,
            out@ + escape_in_strings(s@.skip(i as int), in_string) == escape_in_strings(s@, false),
        decreases s@.len() - i,
    {
        let ghost rest = s@.skip(i as int);
        let ghost before = out@;
        let ghost flag = in_string;
        let c = s[i];
        assert(rest[0] == c);
        if c == '\\' {
            out.push(c);
            if i + 1 < s.len() {
                out.push(s[i + 1]);
                assert(rest.skip(2) =~= s@.skip(i + 2));
                assert(out@ + escape_in_strings(s@.skip(i + 2), in_string) =~= before
                    + escape_in_strings(rest, in_string));
                i = i + 2;
            } else {
                assert(out@ =~= before + escape_in_strings(rest, in_string));
                assert(s@.skip(i + 1) =~= Seq::<char>::empty());
                i = i + 1;
            }
        } else {
            assert(rest.skip(1) =~= s@.skip(i + 1));
            if c == '"' {
                out.push(c);
                in_string = !in_string;
            } else if in_string && c == '\n' {
                out.push('\\');
                out.push('n');
            } else if in_string && c == '\r' {
                out.push('\\');
                out.push('r');
            } else if in_string && c == '\t' {
                out.push('\\');
                out.push('t');
            } else {
                out.push(c);
            }
            assert(out@ + escape_in_strings(s@.skip(i + 1), in_string) =~= before
                + escape_in_strings(rest, flag));
            i = i + 1;
        }
    }
    assert(out@ + escape_in_strings(s@.skip(i as int), in_string) == out@ + Seq::<char>::empty());
    assert(out@ =~= escape_in_strings(s@, false));
    string_of(out.as_slice())
}

/// The index of the last `c` in `s`.
pub open spec fn last_index(s: Seq<char>, c: char) -> Option<int>
    decreases s.len(),
{
    if s.len() == 0 {
        None
    } else if s.last() == c {
        Some(s.len() - 1)
    } else {
        last_index(s.drop_last(), c)
    }
}

/// The index of the first `c` in `s`.
pub open spec fn first_index(s: Seq<char>, c: char) -> Option<int> {
    find_spec(s, seq![c], 0)
}

/// The JSON text that a response carries: its first fenced JSON block, or,
/// where it has none, everything from its first `{` to its last `}`; trimmed.
pub open spec fn json_candidate(s: Seq<char>) -> Option<Seq<char>> {
    match action_block_spec(s) {
        Some(b) => Some(b),
        None => match (first_index(s, '{'), last_index(s, '}')) {
            (Some(a), Some(e)) => if a <= e {
                Some(trim_spec(s.subrange(a, e + 1)))
            } else {
                None
            },
            _ => None,
        },
    }
}

/// Whether a JSON text reads as an action: its `action` member names a known
/// kind and it has a string member `code`.
pub open spec fn is_script_spec(j: Seq<char>) -> bool {
    &&& json_text_member(j, action_key()) matches Some(Some(a))
    &&& kind_of(a) is Some
    &&& json_text_member(j, code_member_key()) matches Some(Some(_))
}

/// What a response's action JSON is: the candidate text with its line
/// breaks inside strings escaped, if it then reads as an action; else
/// `NONE`.
pub open spec fn extract_json_spec(s: Seq<char>) -> Seq<char> {
    match json_candidate(s) {
        Some(c) => if is_script_spec(escape_in_strings(c, false)) {
            escape_in_strings(c, false)
        } else {
            "NONE"@
        },
        None => "NONE"@,
    }
}

/// Whether the members `action` and `code`, as read from a JSON text, make
/// an action.
pub fn is_script(action: &Option<String>, code: &Option<String>) -> (r: bool)
    ensures
        r == (opt_view(*action) matches Some(a) && kind_of(a) is Some && code is Some),
{
    match action {
        Some(a) => {
            let ac = chars_of(a.as_str());
            let exec_word: [char; 7] = ['e', 'x', 'e', 'c', 'u', 't', 'e'];
            let fast_word: [char; 12] = ['f', 'a', 's', 't', '_', 'e', 'x', 'e', 'c', 'u', 't', 'e'];
            assert(exec_word@ == execute_word());
            assert(fast_word@ == fast_execute_word());
            let known = same_text(ac.as_slice(), exec_word.as_slice()) || same_text(
                ac.as_slice(),
                fast_word.as_slice(),
            );
            known && code.is_some()
        },
        None => false,
    }
}

/// The index of the last `c` in `s`.
pub fn last_index_exec(s: &[char], c: char) -> (r: Option<usize>)
    ensures
        match r {
            Some(i) => last_index(s@, c) == Some(i as int) && i < s@.len(),
            None => last_index(s@, c) is None,
        },
{
    let mut j: usize = s.len();
    assert(s@.subrange(0, j as int) =~= s@);
    while j > 0
        invariant
            j <= s@.len(),
            last_index(s@.subrange(0, j as int), c) == last_index(s@, c),
        decreases j,
    {
        if s[j - 1] == c {
            return Some(j - 1);
        }
        assert(s@.subrange(0, j as int).drop_last() =~= s@.subrange(0, j - 1));
        j = j - 1;
    }
    None
}

/// The JSON text of the action a response carries, its line breaks inside
/// strings escaped; `NONE` where the response carries none, or where the
/// text does not read as an action (an `action` member of `execute` or
/// `fast_execute` and a string member `code`).
pub fn extract_json(response: &str) -> (r: String)
    ensures
        r@ == extract_json_spec(response@),
{
    proof {
        reveal_strlit("action");
        reveal_strlit("code");
    }
    assert("action"@ == action_key());
    assert("code"@ == code_member_key());
    let s = chars_of(response);
    let candidate: Option<Vec<char>> = match block_bounds_exec(s.as_slice()) {
        Some((a, b)) => {
            let inner = slice_of(s.as_slice(), a, b);
            Some(trim(inner.as_slice()))
        },
        None => {
            let brace: [char; 1] = ['{'];
            assert(brace@ == seq!['{']);
            match (find_from(s.as_slice(), brace.as_slice(), 0), last_index_exec(s.as_slice(), '}')) {
                (Some(a), Some(e)) => if a <= e {
                    let inner = slice_of(s.as_slice(), a, e + 1);
                    Some(trim(inner.as_slice()))
                } else {
                    None
                },
                _ => None,
            }
        },
    };
    match candidate {
        Some(c) => {
            let text = string_of(c.as_slice());
            let escaped = escape_newlines_in_json_strings(text.as_str());
            let action = text_member(escaped.as_str(), "action");
            let code = text_member(escaped.as_str(), "code");
            match (action, code) {
                (Ok(a), Ok(k)) => if is_script(&a, &k) {
                    escaped
                } else {
                    String::from_str("NONE")
                },
                _ => String::from_str("NONE"),
            }
        },
        None => String::from_str("NONE"),
    }
}

} // verus!
