//! The dispatcher's side of each collaborator call: it turns what a
//! collaborator handed back into a uniform outcome, and filters skills for a
//! keyword search.
use vstd::prelude::*;
use crate::event::texts;
use crate::text::{
    chars_of, contains, contains_spec, lower_of, lowercase, push_str, starts_with,
    starts_with_spec, string_of,
};

verus! {

/// A stored skill: a named snippet of code with a description.
pub struct Skill {
    pub name: String,
    pub description: String,
    pub code: String,
}

impl View for Skill {
    type V = (Seq<char>, Seq<char>, Seq<char>);

    open spec fn view(&self) -> (Seq<char>, Seq<char>, Seq<char>) {
        (self.name@, self.description@, self.code@)
    }
}

impl Skill {
    /// A copy of this skill.
    pub fn duplicate(&self) -> (r: Skill)
        ensures
            r@ == self@,
    {
        Skill {
            name: self.name.clone(),
            description: self.description.clone(),
            code: self.code.clone(),
        }
    }
}

/// The result of a dispatch: whether it succeeded, and the captured output or
/// the error's description.
pub struct ExecutionOutcome {
    pub success: bool,
    pub text: String,
}

/// The views of a sequence of skills.
pub open spec fn skill_views(v: Seq<Skill>) -> Seq<(Seq<char>, Seq<char>, Seq<char>)> {
    v.map_values(|s: Skill| s@)
}

/// Whether a lower-cased name or description holds any of the lower-cased
/// keywords.
pub open spec fn matches_folded(name: Seq<char>, desc: Seq<char>, kws: Seq<Seq<char>>) -> bool {
    exists|i: int|
        0 <= i < kws.len() && (contains_spec(name, #[trigger] kws[i]) || contains_spec(desc, kws[i]))
}

/// Whether a skill matches a search: its name or its description, lower-cased,
/// holds any of the keywords, lower-cased.
pub open spec fn skill_matches_spec(
    sk: (Seq<char>, Seq<char>, Seq<char>),
    kws: Seq<Seq<char>>,
) -> bool {
    matches_folded(lower_of(sk.0), lower_of(sk.1), kws.map_values(|k: Seq<char>| lower_of(k)))
}

/// The skills of `v` that match the keywords, in their order.
pub open spec fn filter_spec(
    v: Seq<(Seq<char>, Seq<char>, Seq<char>)>,
    kws: Seq<Seq<char>>,
) -> Seq<(Seq<char>, Seq<char>, Seq<char>)>
    decreases v.len(),
{
    if v.len() == 0 {
        seq![]
    } else if skill_matches_spec(v.last(), kws) {
        filter_spec(v.drop_last(), kws).push(v.last())
    } else {
        filter_spec(v.drop_last(), kws)
    }
}

/// Whether a lower-cased name or description holds any of the lower-cased
/// keywords.
pub fn skill_matches_folded(name: &str, desc: &str, kws: &Vec<String>) -> (r: bool)
    ensures
        r == matches_folded(name@, desc@, texts(kws@)),
{
    let n = chars_of(name);
    let d = chars_of(desc);
    let mut i: usize = 0;
    while i < kws.len()
        invariant
            0 <= i <= kws@.len(),
            n@ == name@,
            d@ == desc@,
            forall|j: int|
                0 <= j < i ==> !(contains_spec(name@, #[trigger] texts(kws@)[j]) || contains_spec(
                    desc@,
                    texts(kws@)[j],
                )),
        decreases kws@.len() - i,
    {
        let k = chars_of(kws[i].as_str());
        assert(texts(kws@)[i as int] == kws@[i as int]@);
        assert(texts(kws@)[i as int] == k@);
        if contains(n.as_slice(), k.as_slice()) || contains(d.as_slice(), k.as_slice()) {
            return true;
        }
        i = i + 1;
    }
    false
}

/// Whether a skill matches a search: case aside, its name or its description
/// holds any of the keywords.
pub fn skill_matches(skill: &Skill, keywords: &Vec<String>) -> (r: bool)
    ensures
        r == skill_matches_spec(skill@, texts(keywords@)),
{
    let mut lowered: Vec<String> = Vec::new();
    let mut i: usize = 0;
    while i < keywords.len()
        invariant
            0 <= i <= keywords@.len(),
            texts(lowered@) == texts(keywords@).subrange(0, i as int).map_values(
                |k: Seq<char>| lower_of(k),
            ),
        decreases keywords@.len() - i,
    {
        let l = lowercase(keywords[i].as_str());
        assert(texts(keywords@)[i as int] == keywords@[i as int]@);
        let ghost before = texts(lowered@);
        lowered.push(l);
        assert(texts(lowered@) =~= before.push(lower_of(texts(keywords@)[i as int])));
        assert(texts(lowered@) =~= texts(keywords@).subrange(0, i + 1).map_values(
            |k: Seq<char>| lower_of(k),
        ));
        i = i + 1;
    }
    assert(texts(keywords@).subrange(0, i as int) =~= texts(keywords@));
    let name = lowercase(skill.name.as_str());
    let desc = lowercase(skill.description.as_str());
    skill_matches_folded(name.as_str(), desc.as_str(), &lowered)
}

/// The skills that match any of the keywords, case aside, by name or by
/// description, in the order given.
pub fn filter_skills(skills: &Vec<Skill>, keywords: &Vec<String>) -> (r: Vec<Skill>)
    ensures
        skill_views(r@) == filter_spec(skill_views(skills@), texts(keywords@)),
{
    let mut out: Vec<Skill> = Vec::new();
    let mut i: usize = 0;
    while i < skills.len()
        invariant
            0 <= i <= skills@.len(),
            skill_views(out@) == filter_spec(
                skill_views(skills@).subrange(0, i as int),
                texts(keywords@),
            ),
        decreases skills@.len() - i,
    {
        let ghost prefix = skill_views(skills@).subrange(0, i + 1);
        assert(prefix.drop_last() =~= skill_views(skills@).subrange(0, i as int));
        assert(prefix.last() == skills@[i as int]@);
        if skill_matches(&skills[i], keywords) {
            let ghost before = skill_views(out@);
            out.push(skills[i].duplicate());
            assert(skill_views(out@) =~= before.push(skills@[i as int]@));
        }
        i = i + 1;
    }
    assert(skill_views(skills@).subrange(0, i as int) =~= skill_views(skills@));
    out
}

/// A search keeps exactly the skills that match: a skill is in the result if
/// and only if it is among those searched and its name or its description,
/// lower-cased, holds at least one of the keywords, lower-cased. One keyword
/// is enough, and the name or the description alone is enough.
pub proof fn lemma_search_keeps_matches(
    v: Seq<(Seq<char>, Seq<char>, Seq<char>)>,
    kws: Seq<Seq<char>>,
    sk: (Seq<char>, Seq<char>, Seq<char>),
)
    ensures
        filter_spec(v, kws).contains(sk) <==> (v.contains(sk) && skill_matches_spec(sk, kws)),
    decreases v.len(),
{
    if v.len() > 0 {
        lemma_search_keeps_matches(v.drop_last(), kws, sk);
        let f = filter_spec(v.drop_last(), kws);
        if v.contains(sk) && sk != v.last() {
            let i = choose|i: int| 0 <= i < v.len() && v[i] == sk;
            assert(v.drop_last()[i] == sk);
        }
        if v.drop_last().contains(sk) {
            let i = choose|i: int| 0 <= i < v.drop_last().len() && v.drop_last()[i] == sk;
            assert(v[i] == sk);
        }
        if skill_matches_spec(v.last(), kws) {
            assert(f.push(v.last())[f.len() as int] == v.last());
            if f.push(v.last()).contains(sk) && sk != v.last() {
                let i = choose|i: int| 0 <= i < f.len() + 1 && f.push(v.last())[i] == sk;
                assert(f[i] == sk);
            }
            if f.contains(sk) {
                let i = choose|i: int| 0 <= i < f.len() && f[i] == sk;
                assert(f.push(v.last())[i] == sk);
            }
        }
        assert(v[v.len() - 1] == v.last());
    }
}

/// The decimal digits of `n`.
pub open spec fn decimal(n: nat) -> Seq<char>
    decreases n,
{
    if n < 10 {
        seq![digit_char(n)]
    } else {
        decimal(n / 10) + seq![digit_char(n % 10)]
    }
}

pub open spec fn digit_char(d: nat) -> char {
    seq!['0', '1', '2', '3', '4', '5', '6', '7', '8', '9'][d as int]
}

/// Appends the decimal digits of `n` to `out`.
pub fn push_decimal(out: &mut Vec<char>, n: usize)
    ensures
        final(out)@ == old(out)@ + decimal(n as nat),
    decreases n,
{
    let digits: [char; 10] = ['0', '1', '2', '3', '4', '5', '6', '7', '8', '9'];
    assert(digits@ == seq!['0', '1', '2', '3', '4', '5', '6', '7', '8', '9']);
    if n >= 10 {
        push_decimal(out, n / 10);
        out.push(digits[n % 10]);
        assert(final(out)@ =~= old(out)@ + decimal(n as nat));
    } else {
        out.push(digits[n]);
        assert(final(out)@ =~= old(out)@ + decimal(n as nat));
    }
}

/// How one skill is written in a reply.
pub open spec fn skill_text(sk: (Seq<char>, Seq<char>, Seq<char>)) -> Seq<char> {
    "- name: "@ + sk.0 + "\n  description: "@ + sk.1 + "\n  code:\n"@ + sk.2 + "\n"@
}

/// How a list of skills is written in a reply.
pub open spec fn skills_text(v: Seq<(Seq<char>, Seq<char>, Seq<char>)>) -> Seq<char>
    decreases v.len(),
{
    if v.len() == 0 {
        seq![]
    } else {
        skills_text(v.drop_last()) + skill_text(v.last())
    }
}

/// The reply to a listing or a search.
pub open spec fn listing_text(v: Seq<(Seq<char>, Seq<char>, Seq<char>)>) -> Seq<char> {
    "status: success\ncount: "@ + decimal(v.len()) + "\n"@ + skills_text(v)
}

fn push_skill(out: &mut Vec<char>, sk: &Skill)
    ensures
        final(out)@ == old(out)@ + skill_text(sk@),
{
    push_str(out, "- name: ");
    push_str(out, sk.name.as_str());
    push_str(out, "\n  description: ");
    push_str(out, sk.description.as_str());
    push_str(out, "\n  code:\n");
    push_str(out, sk.code.as_str());
    push_str(out, "\n");
    assert(final(out)@ =~= old(out)@ + skill_text(sk@));
}

/// The reply to a listing or a search: a count, then each skill's name,
/// description and code.
pub fn render_listing(skills: &Vec<Skill>) -> (r: String)
    ensures
        r@ == listing_text(skill_views(skills@)),
{
    let mut out: Vec<char> = Vec::new();
    push_str(&mut out, "status: success\ncount: ");
    push_decimal(&mut out, skills.len());
    push_str(&mut out, "\n");
    let ghost head = out@;
    let mut i: usize = 0;
    while i < skills.len()
        invariant
            0 <= i <= skills@.len(),
            out@ == head + skills_text(skill_views(skills@).subrange(0, i as int)),
        decreases skills@.len() - i,
    {
        push_skill(&mut out, &skills[i]);
        let ghost p = skill_views(skills@).subrange(0, i + 1);
        assert(p.drop_last() =~= skill_views(skills@).subrange(0, i as int));
        assert(p.last() == skills@[i as int]@);
        i = i + 1;
        assert(out@ =~= head + skills_text(skill_views(skills@).subrange(0, i as int)));
    }
    assert(skill_views(skills@).subrange(0, i as int) =~= skill_views(skills@));
    assert(out@ =~= listing_text(skill_views(skills@)));
    string_of(out.as_slice())
}

/// The outcome of running code: what the collaborator returned is a success
/// unless it reports an error, by an `Error:` in its text or by failing.
pub open spec fn code_outcome_spec(r: Result<String, String>, o: ExecutionOutcome) -> bool {
    match r {
        Ok(t) => o.success == !contains_spec(t@, "Error:"@) && o.text@ == t@,
        Err(e) => !o.success && o.text@ == e@,
    }
}

/// The outcome of running code on the code-execution collaborator.
pub fn outcome_of_code(r: Result<String, String>) -> (o: ExecutionOutcome)
    ensures
        code_outcome_spec(r, o),
{
    match r {
        Ok(t) => {
            let c = chars_of(t.as_str());
            let m = chars_of("Error:");
            let bad = contains(c.as_slice(), m.as_slice());
            ExecutionOutcome { success: !bad, text: t }
        },
        Err(e) => ExecutionOutcome { success: false, text: e },
    }
}

/// The outcome of a host command: its output is a success unless it begins
/// with the `ERROR:` marker that a non-zero exit gives, or the call failed.
pub fn outcome_of_command(r: Result<String, String>) -> (o: ExecutionOutcome)
    ensures
        r matches Ok(t) ==> o.success == !starts_with_spec(t@, "ERROR:"@) && o.text@ == t@,
        r matches Err(e) ==> !o.success && o.text@ == e@,
{
    match r {
        Ok(t) => {
            let c = chars_of(t.as_str());
            let m = chars_of("ERROR:");
            let bad = starts_with(c.as_slice(), m.as_slice());
            ExecutionOutcome { success: !bad, text: t }
        },
        Err(e) => ExecutionOutcome { success: false, text: e },
    }
}

/// The outcome of listing every skill.
pub fn outcome_of_listing(r: Result<Vec<Skill>, String>) -> (o: ExecutionOutcome)
    ensures
        r matches Ok(v) ==> o.success && o.text@ == listing_text(skill_views(v@)),
        r matches Err(e) ==> !o.success && o.text@ == e@,
{
    match r {
        Ok(v) => ExecutionOutcome { success: true, text: render_listing(&v) },
        Err(e) => ExecutionOutcome { success: false, text: e },
    }
}

/// The outcome of a keyword search over every skill listed: the skills that
/// match any keyword, case aside, by name or description.
pub fn outcome_of_search(r: Result<Vec<Skill>, String>, keywords: &Vec<String>) -> (o:
    ExecutionOutcome)
    ensures
        r matches Ok(v) ==> o.success && o.text@ == listing_text(
            filter_spec(skill_views(v@), texts(keywords@)),
        ),
        r matches Err(e) ==> !o.success && o.text@ == e@,
{
    match r {
        Ok(v) => {
            let found = filter_skills(&v, keywords);
            ExecutionOutcome { success: true, text: render_listing(&found) }
        },
        Err(e) => ExecutionOutcome { success: false, text: e },
    }
}

/// The outcome of fetching one skill: a skill that is not there is a failure
/// that names it.
pub fn outcome_of_get(name: &str, r: Result<Option<Skill>, String>) -> (o: ExecutionOutcome)
    ensures
        r matches Ok(Some(sk)) ==> o.success && o.text@ == "status: success\n"@ + skill_text(
            sk@,
        ),
        r matches Ok(None) ==> !o.success && o.text@ == "Skill not found: "@ + name@,
        r matches Err(e) ==> !o.success && o.text@ == e@,
{
    match r {
        Ok(Some(sk)) => {
            let mut out: Vec<char> = Vec::new();
            push_str(&mut out, "status: success\n");
            push_skill(&mut out, &sk);
            ExecutionOutcome { success: true, text: string_of(out.as_slice()) }
        },
        Ok(None) => {
            let mut out: Vec<char> = Vec::new();
            push_str(&mut out, "Skill not found: ");
            push_str(&mut out, name);
            ExecutionOutcome { success: false, text: string_of(out.as_slice()) }
        },
        Err(e) => ExecutionOutcome { success: false, text: e },
    }
}

/// The outcome of deleting one skill. Deleting is idempotent: a name that
/// is not stored is reported deleted all the same, as the store does.
pub fn outcome_of_delete(name: &str, r: Result<(), String>) -> (o: ExecutionOutcome)
    ensures
        r is Ok ==> o.success && o.text@ == "status: success\ndeleted: "@ + name@,
        r matches Err(e) ==> !o.success && o.text@ == e@,
{
    match r {
        Ok(()) => {
            let mut out: Vec<char> = Vec::new();
            push_str(&mut out, "status: success\ndeleted: ");
            push_str(&mut out, name);
            ExecutionOutcome { success: true, text: string_of(out.as_slice()) }
        },
        Err(e) => ExecutionOutcome { success: false, text: e },
    }
}

/// The outcome of an event that names no known operation, reported back so
/// that the model can correct itself.
pub fn outcome_of_unknown(event: &str) -> (o: ExecutionOutcome)
    ensures
        !o.success,
        o.text@ == "{\"status\": \"error\", \"message\": \"Unknown fast_execute event: "@ + event@
            + "\"}"@,
{
    let mut out: Vec<char> = Vec::new();
    push_str(&mut out, "{\"status\": \"error\", \"message\": \"Unknown fast_execute event: ");
    push_str(&mut out, event);
    push_str(&mut out, "\"}");
    ExecutionOutcome { success: false, text: string_of(out.as_slice()) }
}

/// The first skill of `skills` with the name `name`, where there is one: a
/// fetch by name over a listing.
pub fn skill_named(skills: &Vec<Skill>, name: &str) -> (r: Option<Skill>)
    ensures
        match r {
            Some(sk) => exists|i: int|
                0 <= i < skills@.len() && skills@[i]@ == sk@ && sk.name@ == name@ && forall|j: int|
                    0 <= j < i ==> (#[trigger] skills@[j]).name@ != name@,
            None => forall|j: int| 0 <= j < skills@.len() ==> (#[trigger] skills@[j]).name@ != name@,
        },
{
    let n = chars_of(name);
    let mut i: usize = 0;
    while i < skills.len()
        invariant
            0 <= i <= skills@.len(),
            n@ == name@,
            forall|j: int| 0 <= j < i ==> (#[trigger] skills@[j]).name@ != name@,
        decreases skills@.len() - i,
    {
        let c = chars_of(skills[i].name.as_str());
        if crate::text::same_text(c.as_slice(), n.as_slice()) {
            return Some(skills[i].duplicate());
        }
        i = i + 1;
    }
    None
}

} // verus!
