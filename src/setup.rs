//! The guidance section that agent setup writes into a workspace's notes file.

use vstd::prelude::*;
use crate::text::{
    contains_text, is_infix, is_prefix, join_sep, join_strings, lines_of, lines_vec,
    starts_with_text, views, lemma_views_push, lemma_views_prefix,
};

verus! {

/// The section that tells an agent how to use the server.
pub const JUMBLE_SECTION: &'static str = r#"## Using Jumble for Project Context

ALWAYS start workspace exploration by calling `get_workspace_overview()` from the Jumble MCP server to understand the workspace structure, available projects, and their relationships.

### When to Use Jumble Tools

**Before suggesting commands:**
- Call `get_commands(project, type)` to get exact build/test/lint/run commands
- Never guess commands when jumble can provide them

**Before making architectural changes:**
- Call `get_architecture(project, concept)` to understand existing patterns
- Use `get_related_files(project, query)` to find related code

**Before writing new code:**
- Call `get_conventions(project)` for project-specific patterns
- Call `get_workspace_conventions()` for workspace-wide standards
- Review both conventions AND gotchas

**Before searching for documentation:**
- Call `get_docs(project)` to see available documentation
- Use topic names to get specific doc paths

**For specific tasks:**
- Call `list_skills(project)` to see available task-specific guidance
- Use `get_skill(project, topic)` for focused instructions

### Handling Missing Context

If jumble returns "No projects found":
1. Call `get_jumble_authoring_prompt()` to get the creation prompt
2. Offer to create `.jumble/project.toml` for the current project
3. Follow the AUTHORING.md guide

### Workflow

1. **Enter workspace** → `get_workspace_overview()`
2. **Working on a project** → `get_project_info(project)`
3. **Making changes** → Check conventions, architecture, skills
4. **Writing code** → Follow conventions, avoid gotchas
5. **Running commands** → Use `get_commands(project, type)`
"#;

/// The heading that starts the section.
pub const JUMBLE_SECTION_MARKER: &'static str = "## Using Jumble for Project Context";

/// A line ends the section being dropped: a top-level heading, or a
/// second-level one that is not about the server.
pub open spec fn ends_section(line: Seq<char>) -> bool {
    is_prefix(line, "# "@) || (is_prefix(line, "## "@) && !is_infix(line, "Using Jumble"@))
}

/// The lines kept when the old section is dropped, and whether the scan is
/// inside that section.
pub open spec fn section_scan(ls: Seq<Seq<char>>) -> (Seq<Seq<char>>, bool)
    decreases ls.len(),
{
    if ls.len() == 0 {
        (seq![], false)
    } else {
        let (kept, inside) = section_scan(ls.drop_last());
        let line = ls.last();
        if is_prefix(line, JUMBLE_SECTION_MARKER@) {
            (kept, true)
        } else {
            let still = inside && !ends_section(line);
            if still {
                (kept, true)
            } else {
                (kept.push(line), false)
            }
        }
    }
}

/// Where the new section goes: before the first top-level heading other
/// than the notes file's own title, else at the end.
pub open spec fn insert_at(kept: Seq<Seq<char>>, i: int) -> bool {
    &&& 0 <= i <= kept.len()
    &&& forall|j: int|
        0 <= j < i ==> !(is_prefix(#[trigger] kept[j], "# "@) && !is_prefix(kept[j], "# WARP"@))
    &&& i < kept.len() ==> is_prefix(kept[i], "# "@) && !is_prefix(kept[i], "# WARP"@)
}

pub open spec fn with_section(kept: Seq<Seq<char>>, i: int) -> Seq<Seq<char>> {
    if i < kept.len() {
        kept.subrange(0, i) + lines_of(JUMBLE_SECTION@) + seq![seq![], seq![]] + kept.subrange(
            i,
            kept.len() as int,
        )
    } else {
        kept + seq![seq![]] + lines_of(JUMBLE_SECTION@)
    }
}

fn is_later_heading(line: &str) -> (r: bool)
    ensures
        r == (is_prefix(line@, "# "@) && !is_prefix(line@, "# WARP"@)),
{
    starts_with_text(line, "# ") && !starts_with_text(line, "# WARP")
}

fn starts_section_end(line: &str) -> (r: bool)
    ensures
        r == ends_section(line@),
{
    starts_with_text(line, "# ") || (starts_with_text(line, "## ") && !contains_text(
        line,
        "Using Jumble",
    ))
}

/// Notes text with the server's section replaced by the current one: the old
/// section is dropped, and the new one goes before the first top-level
/// heading after the title, or at the end.
pub fn replace_jumble_section(content: &str) -> (r: String)
    ensures
        exists|i: int|
            insert_at(section_scan(lines_of(content@)).0, i) && r@ == join_sep(
                with_section(section_scan(lines_of(content@)).0, i),
                "\n"@,
            ),
{
    let lines = lines_vec(content);
    let ghost ls = lines_of(content@);
    let mut result: Vec<String> = Vec::new();
    let mut inside = false;
    let mut k: usize = 0;
    while k < lines.len()
        invariant
            k <= lines.len(),
            views(lines@) == ls,
            section_scan(ls.subrange(0, k as int)) == (views(result@), inside),
        decreases lines.len() - k,
    {
        assert(ls.subrange(0, k + 1).drop_last() =~= ls.subrange(0, k as int));
        assert(ls.subrange(0, k + 1).last() == lines@[k as int]@);
        let line = lines[k].as_str();
        if starts_with_text(line, JUMBLE_SECTION_MARKER) {
            inside = true;
        } else {
            if inside && starts_section_end(line) {
                inside = false;
            }
            if !inside {
                let ghost before = result@;
                let x = lines[k].clone();
                result.push(x);
                proof {
                    lemma_views_push(before, x);
                }
            }
        }
        k = k + 1;
    }
    assert(ls.subrange(0, k as int) =~= ls);
    let ghost kept = views(result@);
    let mut pos: usize = 0;
    while pos < result.len() && !is_later_heading(result[pos].as_str())
        invariant
            pos <= result.len(),
            kept == views(result@),
            forall|j: int|
                0 <= j < pos ==> !(is_prefix(#[trigger] kept[j], "# "@) && !is_prefix(
                    kept[j],
                    "# WARP"@,
                )),
        decreases result.len() - pos,
    {
        assert(kept[pos as int] == result@[pos as int]@);
        pos = pos + 1;
    }
    if pos < result.len() {
        assert(kept[pos as int] == result@[pos as int]@);
    }
    assert(insert_at(kept, pos as int));
    let section = lines_vec(JUMBLE_SECTION);
    let mut out: Vec<String> = Vec::new();
    if pos < result.len() {
        let mut j: usize = 0;
        while j < pos
            invariant
                j <= pos,
                pos < result.len(),
                views(out@) == views(result@.subrange(0, j as int)),
            decreases pos - j,
        {
            let ghost before = out@;
            let x = result[j].clone();
            out.push(x);
            proof {
                lemma_views_push(before, x);
                lemma_views_prefix(result@, j as int);
            }
            j = j + 1;
        }
        assert(result@.subrange(0, pos as int) == result@.subrange(0, j as int));
        append_all(&mut out, &section);
        let ghost o1 = out@;
        let e1 = String::new();
        out.push(e1);
        let ghost o2 = out@;
        let e2 = String::new();
        out.push(e2);
        proof {
            lemma_views_push(o1, e1);
            lemma_views_push(o2, e2);
        }
        let ghost full = result@;
        assert(views(result@.subrange(0, pos as int)) =~= kept.subrange(0, pos as int));
        let tail = result.split_off(pos);
        assert(views(tail@) =~= kept.subrange(pos as int, kept.len() as int));
        append_all(&mut out, &tail);
        assert(views(out@) =~= with_section(kept, pos as int));
    } else {
        append_all(&mut out, &result);
        let ghost o1 = out@;
        let e1 = String::new();
        out.push(e1);
        proof {
            lemma_views_push(o1, e1);
        }
        append_all(&mut out, &section);
        assert(views(out@) =~= with_section(kept, pos as int));
    }
    let r = join_strings(&out, "\n");
    assert(kept == section_scan(lines_of(content@)).0);
    assert(insert_at(kept, pos as int) && r@ == join_sep(with_section(kept, pos as int), "\n"@));
    r
}

fn append_all(out: &mut Vec<String>, more: &Vec<String>)
    ensures
        views(final(out)@) == views(old(out)@) + views(more@),
{
    let ghost start = views(out@);
    let mut i: usize = 0;
    while i < more.len()
        invariant
            i <= more.len(),
            views(out@) == start + views(more@.subrange(0, i as int)),
        decreases more.len() - i,
    {
        let ghost before = out@;
        let x = more[i].clone();
        out.push(x);
        proof {
            lemma_views_push(before, x);
            lemma_views_prefix(more@, i as int);
        }
        assert(views(out@) =~= start + views(more@.subrange(0, i + 1)));
        i = i + 1;
    }
    assert(more@.subrange(0, i as int) =~= more@);
}

} // verus!
