//! Skill discovery rules: the header block of a skill file, the key a skill is
//! known by, the precedence of sources, and the listing of companion resources.

use vstd::prelude::*;
use crate::config::{ProjectSkills, SkillFrontmatter, SkillInfo};
use crate::keyed::{find_key, first_key_at, has_key, keys_unique};
use crate::text::{
    build_preview, chars_vec, find_chars, first_occurrence, is_infix, is_prefix, preview_of,
    starts_with_text,
};

verus! {

/// The line that opens and closes a header block.
pub open spec fn opening_marker() -> Seq<char> {
    "---\n"@
}

/// A newline, the marker line and its newline: how a header block ends.
pub open spec fn closing_marker() -> Seq<char> {
    "\n---\n"@
}

/// The header block and the preview of a skill file's text. A header block is
/// there only when the text starts with the marker line and the marker line
/// comes again: the block is the text between the two, the preview is taken
/// from what follows the second. Otherwise there is no block and the preview is
/// taken from the whole text.
pub open spec fn frontmatter_split(c: Seq<char>, r: (Option<Seq<char>>, Seq<char>)) -> bool {
    let rest = c.subrange(4, c.len() as int);
    if is_prefix(c, opening_marker()) && is_infix(rest, closing_marker()) {
        exists|e: int|
            first_occurrence(rest, closing_marker(), e) && r.0 == Some(rest.subrange(0, e))
                && r.1 == preview_of(rest.subrange(e + 5, rest.len() as int))
    } else {
        r.0 is None && r.1 == preview_of(c)
    }
}

/// Splits a skill file's text into its header block (still to be parsed) and
/// the preview of its body.
pub fn extract_skill_frontmatter_and_preview(content: &str) -> (r: (Option<String>, String))
    ensures
        frontmatter_split(content@, (
            match r.0 {
                Some(y) => Some(y@),
                None => None,
            },
            r.1@,
        )),
{
    proof {
        reveal_strlit("---\n");
        reveal_strlit("\n---\n");
    }
    let n = content.unicode_len();
    if starts_with_text(content, "---\n") {
        let rest = content.substring_char(4, n);
        let rest_chars = chars_vec(rest);
        let marker = chars_vec("\n---\n");
        match find_chars(&rest_chars, &marker) {
            Some(e) => {
                let block = rest.substring_char(0, e);
                let body = rest.substring_char(e + 5, rest.unicode_len());
                let preview = build_preview(body);
                return (Some(String::from_str(block)), preview);
            },
            None => {},
        }
    }
    (None, build_preview(content))
}

/// `name` is `SKILL.md` up to the case of ASCII letters.
pub open spec fn is_skill_file_name_spec(name: Seq<char>) -> bool {
    name.len() == 8 && forall|i: int|
        0 <= i < 8 ==> name[i] == #[trigger] "SKILL.MD"@[i] || name[i] == "skill.md"@[i]
}

/// Whether a file name marks a structured skill.
pub fn is_skill_file_name(name: &str) -> (r: bool)
    ensures
        r == is_skill_file_name_spec(name@),
{
    proof {
        reveal_strlit("SKILL.MD");
        reveal_strlit("skill.md");
    }
    let cs = chars_vec(name);
    if cs.len() != 8 {
        return false;
    }
    let upper = chars_vec("SKILL.MD");
    let lower = chars_vec("skill.md");
    let mut i: usize = 0;
    while i < 8
        invariant
            i <= 8,
            cs@ == name@,
            cs.len() == 8,
            upper@ == "SKILL.MD"@,
            lower@ == "skill.md"@,
            upper.len() == 8,
            lower.len() == 8,
            forall|j: int| 0 <= j < i ==> cs@[j] == #[trigger] "SKILL.MD"@[j] || cs@[j] == "skill.md"@[j],
        decreases 8 - i,
    {
        if cs[i] != upper[i] && cs[i] != lower[i] {
            return false;
        }
        i = i + 1;
    }
    true
}

/// The key of a structured skill: the name its header declares when that is
/// not empty, else the name of its directory, else `skill`.
pub open spec fn structured_key(declared: Option<Seq<char>>, dir_name: Option<Seq<char>>) -> Seq<char> {
    match declared {
        Some(d) if d.len() > 0 => d,
        _ => match dir_name {
            Some(n) => n,
            None => "skill"@,
        },
    }
}

/// The key a structured skill is known by.
pub fn structured_skill_key(frontmatter: &Option<SkillFrontmatter>, dir_name: Option<&str>) -> (r:
    String)
    ensures
        r@ == structured_key(
            match frontmatter {
                Some(fm) => match fm.name {
                    Some(n) => Some(n@),
                    None => None,
                },
                None => None,
            },
            match dir_name {
                Some(d) => Some(d@),
                None => None,
            },
        ),
{
    match frontmatter {
        Some(fm) => match &fm.name {
            Some(n) => {
                if !n.as_str().is_empty() {
                    return n.clone();
                }
            },
            None => {},
        },
        None => {},
    }
    match dir_name {
        Some(d) => String::from_str(d),
        None => String::from_str("skill"),
    }
}

/// A candidate takes its key when the key is not empty and not yet taken.
pub open spec fn claim_one(s: Seq<(String, SkillInfo)>, c: (String, SkillInfo)) -> Seq<(String, SkillInfo)> {
    if c.0@.len() > 0 && !has_key(s, c.0@) {
        s.push(c)
    } else {
        s
    }
}

/// Candidates offered in order, each claiming its key if it can.
pub open spec fn claim_all(s: Seq<(String, SkillInfo)>, cands: Seq<(String, SkillInfo)>) -> Seq<(String, SkillInfo)>
    decreases cands.len(),
{
    if cands.len() == 0 {
        s
    } else {
        claim_one(claim_all(s, cands.drop_last()), cands.last())
    }
}

/// Offers a candidate skill: it takes its key only when the key is not empty
/// and no earlier source claimed it.
pub fn claim_skill(skills: &mut ProjectSkills, key: String, info: SkillInfo) -> (claimed: bool)
    ensures
        claimed == (key@.len() > 0 && !has_key(old(skills).skills@, key@)),
        final(skills).skills@ == claim_one(old(skills).skills@, (key, info)),
{
    if key.as_str().is_empty() {
        return false;
    }
    match find_key(&skills.skills, key.as_str()) {
        Some(_) => false,
        None => {
            skills.skills.push((key, info));
            true
        },
    }
}

/// Offers candidates in order.
pub fn claim_skills(skills: &mut ProjectSkills, cands: Vec<(String, SkillInfo)>)
    ensures
        final(skills).skills@ == claim_all(old(skills).skills@, cands@),
{
    let ghost start = skills.skills@;
    let mut cands = cands;
    let ghost all = cands@;
    let mut taken: usize = 0;
    let total = cands.len();
    while taken < total
        invariant
            total == all.len(),
            taken <= total,
            cands@ == all.subrange(taken as int, total as int),
            skills.skills@ == claim_all(start, all.subrange(0, taken as int)),
        decreases total - taken,
    {
        let c = cands.remove(0);
        assert(c == all[taken as int]);
        assert(all.subrange(0, taken + 1).drop_last() =~= all.subrange(0, taken as int));
        claim_skill(skills, c.0, c.1);
        taken = taken + 1;
    }
    assert(all.subrange(0, taken as int) =~= all);
}

/// Candidate skills from each source, grouped by source.
pub struct SkillSources {
    /// Flat files of the project's own skills directory.
    pub local_flat: Vec<(String, SkillInfo)>,
    /// Flat files of the user's skills directory.
    pub global_flat: Vec<(String, SkillInfo)>,
    /// Structured skills of each ecosystem, in a fixed order: for each, the
    /// project's own candidates and then the user's.
    pub structured: Vec<(Vec<(String, SkillInfo)>, Vec<(String, SkillInfo)>)>,
}

/// The candidates of all sources, in precedence order.
pub open spec fn precedence_order(flat_local: Seq<(String, SkillInfo)>, flat_global: Seq<(String, SkillInfo)>, structured: Seq<(Vec<(String, SkillInfo)>, Vec<(String, SkillInfo)>)>) -> Seq<(String, SkillInfo)>
    decreases structured.len(),
{
    if structured.len() == 0 {
        flat_local + flat_global
    } else {
        precedence_order(flat_local, flat_global, structured.drop_last()) + structured.last().0@
            + structured.last().1@
    }
}

/// Merges the sources of a project's skills: the project's flat files, the
/// user's flat files, then each structured ecosystem, the project's own before
/// the user's. The first source to offer a key keeps it.
pub fn discover_skills(sources: SkillSources) -> (r: ProjectSkills)
    ensures
        r.skills@ == claim_all(
            seq![],
            precedence_order(sources.local_flat@, sources.global_flat@, sources.structured@),
        ),
        r.wf(),
{
    let ghost lf = sources.local_flat@;
    let ghost gf = sources.global_flat@;
    let ghost st = sources.structured@;
    let SkillSources { local_flat, global_flat, structured } = sources;
    let mut skills = ProjectSkills { skills: Vec::new() };
    claim_skills(&mut skills, local_flat);
    claim_skills(&mut skills, global_flat);
    proof {
        lemma_claim_all_append(seq![], lf, gf);
        assert(precedence_order(lf, gf, st.subrange(0, 0)) == lf + gf);
    }
    let mut i: usize = 0;
    let mut structured = structured;
    let total = structured.len();
    while i < total
        invariant
            total == st.len(),
            i <= total,
            structured@ == st.subrange(i as int, total as int),
            skills.skills@ == claim_all(seq![], precedence_order(lf, gf, st.subrange(0, i as int))),
        decreases total - i,
    {
        let pair = structured.remove(0);
        assert(pair == st[i as int]);
        let ghost before = precedence_order(lf, gf, st.subrange(0, i as int));
        assert(st.subrange(0, i + 1).drop_last() =~= st.subrange(0, i as int));
        let ghost a = pair.0@;
        let ghost b = pair.1@;
        claim_skills(&mut skills, pair.0);
        claim_skills(&mut skills, pair.1);
        proof {
            lemma_claim_all_append(seq![], before, a);
            lemma_claim_all_append(seq![], before + a, b);
        }
        i = i + 1;
    }
    assert(st.subrange(0, i as int) =~= st);
    proof {
        lemma_claim_all_distinct(seq![], precedence_order(lf, gf, st));
    }
    skills
}

/// Offering `a` and then `b` is offering `a + b`.
pub proof fn lemma_claim_all_append(s: Seq<(String, SkillInfo)>, a: Seq<(String, SkillInfo)>, b: Seq<(String, SkillInfo)>)
    ensures
        claim_all(claim_all(s, a), b) == claim_all(s, a + b),
    decreases b.len(),
{
    if b.len() == 0 {
        assert(a + b =~= a);
    } else {
        lemma_claim_all_append(s, a, b.drop_last());
        assert((a + b).drop_last() =~= a + b.drop_last());
    }
}

/// Once a source has claimed a key, no later candidate replaces the entry
/// that holds it: a project's own skill is never overwritten by a user-level
/// skill of the same key, whatever the user-level sources offer.
pub proof fn lemma_claimed_key_kept(s: Seq<(String, SkillInfo)>, cands: Seq<(String, SkillInfo)>, k: Seq<char>, i: int)
    requires
        first_key_at(s, k, i),
    ensures
        first_key_at(claim_all(s, cands), k, i),
        claim_all(s, cands)[i] == s[i],
        s.len() <= claim_all(s, cands).len(),
        claim_all(s, cands).subrange(0, s.len() as int) == s,
    decreases cands.len(),
{
    if cands.len() > 0 {
        lemma_claimed_key_kept(s, cands.drop_last(), k, i);
        let prev = claim_all(s, cands.drop_last());
        let c = cands.last();
        if c.0@.len() > 0 && !has_key(prev, c.0@) {
            assert(prev.push(c).subrange(0, s.len() as int) =~= prev.subrange(0, s.len() as int));
        }
    }
}

/// A key held after offering candidates was held before or offered by one.
proof fn lemma_claim_all_keys(s: Seq<(String, SkillInfo)>, cands: Seq<(String, SkillInfo)>, k: Seq<char>)
    requires
        has_key(claim_all(s, cands), k),
    ensures
        has_key(s, k) || exists|i: int| 0 <= i < cands.len() && (#[trigger] cands[i]).0@ == k,
    decreases cands.len(),
{
    if cands.len() > 0 {
        let prev = claim_all(s, cands.drop_last());
        let c = cands.last();
        if has_key(prev, k) {
            lemma_claim_all_keys(s, cands.drop_last(), k);
            if !has_key(s, k) {
                let i = choose|i: int|
                    0 <= i < cands.drop_last().len() && (#[trigger] cands.drop_last()[i]).0@ == k;
                assert(cands[i] == cands.drop_last()[i]);
            }
        } else {
            let r = claim_one(prev, c);
            let i = choose|i: int| 0 <= i < r.len() && r[i].0@ == k;
            assert(i == prev.len());
            assert(cands[cands.len() - 1].0@ == k);
        }
    }
}

/// The first candidate to offer a key that no one held before is the one
/// that holds it afterwards.
pub proof fn lemma_first_offer_wins(s: Seq<(String, SkillInfo)>, cands: Seq<(String, SkillInfo)>, j: int)
    requires
        0 <= j < cands.len(),
        cands[j].0@.len() > 0,
        !has_key(s, cands[j].0@),
        forall|i: int| 0 <= i < j ==> (#[trigger] cands[i]).0@ != cands[j].0@,
    ensures
        exists|i: int| first_key_at(claim_all(s, cands), cands[j].0@, i) && claim_all(s, cands)[i] == cands[j],
    decreases cands.len(),
{
    let k = cands[j].0@;
    let prev = claim_all(s, cands.drop_last());
    if j == cands.len() - 1 {
        if has_key(prev, k) {
            lemma_claim_all_keys(s, cands.drop_last(), k);
            let i = choose|i: int|
                0 <= i < cands.drop_last().len() && (#[trigger] cands.drop_last()[i]).0@ == k;
            assert(cands[i] == cands.drop_last()[i]);
        }
        let r = claim_all(s, cands);
        assert(r == prev.push(cands[j]));
        assert(first_key_at(r, k, prev.len() as int));
    } else {
        assert(cands.drop_last()[j] == cands[j]);
        assert forall|i: int| 0 <= i < j implies (#[trigger] cands.drop_last()[i]).0@ != k by {
            assert(cands.drop_last()[i] == cands[i]);
        }
        lemma_first_offer_wins(s, cands.drop_last(), j);
        let i = choose|i: int| first_key_at(prev, k, i) && prev[i] == cands[j];
        let r = claim_one(prev, cands.last());
        assert(claim_all(s, cands) == r);
        assert forall|m: int| 0 <= m <= i implies r[m] == prev[m] by {}
        assert(first_key_at(r, k, i));
    }
}

/// The project's flat skill files come first in precedence order.
proof fn lemma_precedence_starts_local(
    lf: Seq<(String, SkillInfo)>,
    gf: Seq<(String, SkillInfo)>,
    st: Seq<(Vec<(String, SkillInfo)>, Vec<(String, SkillInfo)>)>,
)
    ensures
        precedence_order(lf, gf, st).len() >= lf.len(),
        precedence_order(lf, gf, st).subrange(0, lf.len() as int) == lf,
    decreases st.len(),
{
    if st.len() == 0 {
        assert((lf + gf).subrange(0, lf.len() as int) =~= lf);
    } else {
        lemma_precedence_starts_local(lf, gf, st.drop_last());
        let p = precedence_order(lf, gf, st.drop_last());
        let q = p + st.last().0@ + st.last().1@;
        assert(q.subrange(0, lf.len() as int) =~= p.subrange(0, lf.len() as int));
    }
}

/// A skill file of the project itself keeps its key against every other
/// source: whatever the user's files or any structured source offer, the
/// merged skills hold the first of the project's files with that key.
pub proof fn lemma_local_flat_wins(sources: SkillSources, j: int)
    requires
        0 <= j < sources.local_flat@.len(),
        sources.local_flat@[j].0@.len() > 0,
        forall|i: int|
            0 <= i < j ==> (#[trigger] sources.local_flat@[i]).0@ != sources.local_flat@[j].0@,
    ensures
        ({
            let merged = claim_all(
                seq![],
                precedence_order(sources.local_flat@, sources.global_flat@, sources.structured@),
            );
            exists|i: int|
                first_key_at(merged, sources.local_flat@[j].0@, i) && merged[i]
                    == sources.local_flat@[j]
        }),
{
    let lf = sources.local_flat@;
    let all = precedence_order(lf, sources.global_flat@, sources.structured@);
    lemma_precedence_starts_local(lf, sources.global_flat@, sources.structured@);
    assert(all[j] == lf[j]) by {
        assert(all.subrange(0, lf.len() as int)[j] == all[j]);
    }
    assert forall|i: int| 0 <= i < j implies (#[trigger] all[i]).0@ != all[j].0@ by {
        assert(all.subrange(0, lf.len() as int)[i] == all[i]);
    }
    lemma_first_offer_wins(seq![], all, j);
}

/// Claiming keeps keys distinct.
pub proof fn lemma_claim_all_distinct(s: Seq<(String, SkillInfo)>, cands: Seq<(String, SkillInfo)>)
    requires
        keys_unique(s),
    ensures
        keys_unique(claim_all(s, cands)),
    decreases cands.len(),
{
    if cands.len() > 0 {
        lemma_claim_all_distinct(s, cands.drop_last());
        let prev = claim_all(s, cands.drop_last());
        let c = cands.last();
        if c.0@.len() > 0 && !has_key(prev, c.0@) {
            let r = prev.push(c);
            assert forall|i: int, j: int| 0 <= i < j < r.len() implies r[i].0@ != r[j].0@ by {
                if j == prev.len() {
                    assert(r[i] == prev[i]);
                }
            }
        }
    }
}

} // verus!
