//! The tools that answer questions about the workspace's projects.
//!
//! Each tool takes the project index and its arguments, and returns the text
//! of its answer, or the text of a tool-level error.

use vstd::prelude::*;
use crate::config::{
    Concept, DocEntry, ProjectConfig, ProjectConventions, ProjectDocs, ProjectSkills, SkillInfo,
    WorkspaceConfig,
};
use crate::format::{
    api_text, commands_text, concept_text, dependencies_text, entry_points_text, format_api,
    format_commands, format_concept, format_dependencies, format_entry_points,
    format_related_projects, related_projects_text,
};
use crate::keyed::{
    find_key, has_key, index_of_key, key_list, keys_of, keys_sorted, lemma_index_of_key, upserted,
};
use crate::memory::{
    cleared_text, entry_for, key_not_found_text, restamped, list_text, memory_text, quoted, retained, search_text,
    MemoryEntry, MemoryStore,
};
use crate::text::{
    append_pairs, contains_text, first_line, is_infix, join_sep, join_strings, lemma_infix_middle,
    lines_of, lower_of, lowercase, pairs_text, text_eq, trim_of, trim_text, views, wrap_each,
};

verus! {

/// Everything known of one project.
#[derive(Debug, Clone)]
pub struct ProjectData {
    /// The project's root directory.
    pub path: String,
    pub config: ProjectConfig,
    pub skills: ProjectSkills,
    pub conventions: ProjectConventions,
    pub docs: ProjectDocs,
    pub memory: MemoryStore,
}

/// The arguments of a tool call; an argument that is absent, or not of the
/// expected kind, is `None`.
#[derive(Debug, Clone)]
pub struct ToolArgs {
    pub project: Option<String>,
    pub field: Option<String>,
    pub command_type: Option<String>,
    pub concept: Option<String>,
    pub query: Option<String>,
    pub topic: Option<String>,
    pub category: Option<String>,
    pub key: Option<String>,
    pub value: Option<String>,
    pub source: Option<String>,
    pub pattern: Option<String>,
    pub confirm: Option<bool>,
}

impl Default for ToolArgs {
    fn default() -> (r: Self)
        ensures
            r.project is None && r.field is None && r.command_type is None && r.concept is None
                && r.query is None && r.topic is None && r.category is None && r.key is None
                && r.value is None && r.source is None && r.pattern is None && r.confirm is None,
    {
        ToolArgs {
            project: None,
            field: None,
            command_type: None,
            concept: None,
            query: None,
            topic: None,
            category: None,
            key: None,
            value: None,
            source: None,
            pattern: None,
            confirm: None,
        }
    }
}

/// The views of a tool's result.
pub open spec fn result_view(r: Result<String, String>) -> Result<Seq<char>, Seq<char>> {
    match r {
        Ok(t) => Ok(t@),
        Err(t) => Err(t@),
    }
}

pub open spec fn opt_view(o: Option<String>) -> Option<Seq<char>> {
    match o {
        Some(s) => Some(s@),
        None => None,
    }
}

pub open spec fn missing_text(name: Seq<char>) -> Seq<char> {
    "Missing '"@ + name + "' argument"@
}

pub open spec fn project_not_found_text(name: Seq<char>) -> Seq<char> {
    "Project "@ + quoted(name) + " not found"@
}

/// The project that a name selects.
pub open spec fn project_named(ps: Seq<(String, ProjectData)>, name: Seq<char>) -> ProjectData {
    ps[index_of_key(ps, name)].1
}

/// The index keeps one entry per project name, sorted by name, and each
/// project's memory store is well formed.
pub open spec fn index_wf(ps: Seq<(String, ProjectData)>) -> bool {
    keys_sorted(ps) && forall|i: int|
        0 <= i < ps.len() ==> (#[trigger] ps[i]).1.memory.wf() && ps[i].1.maps_wf()
}

impl ProjectData {
    /// The project's maps each have one entry per key.
    pub open spec fn maps_wf(&self) -> bool {
        self.config.wf() && self.skills.wf() && self.conventions.wf() && self.docs.wf()
    }

    /// Whether the project's maps each have one entry per key.
    pub fn has_unique_keys(&self) -> (r: bool)
        ensures
            r == self.maps_wf(),
    {
        self.config.has_unique_keys() && self.skills.has_unique_keys()
            && self.conventions.has_unique_keys() && self.docs.has_unique_keys()
    }
}

fn missing(name: &str) -> (r: String)
    ensures
        r@ == missing_text(name@),
{
    let mut m = String::from_str("Missing '");
    m.append(name);
    m.append("' argument");
    m
}

fn append_quoted(out: &mut String, s: &str)
    ensures
        final(out)@ == old(out)@ + quoted(s@),
{
    out.append("'");
    out.append(s);
    out.append("'");
}

/// Position of the project called `name`, or the error that there is none.
fn lookup_project(ps: &Vec<(String, ProjectData)>, name: &str) -> (r: Result<usize, String>)
    ensures
        match r {
            Ok(i) => has_key(ps@, name@) && i == index_of_key(ps@, name@) && i < ps@.len(),
            Err(m) => !has_key(ps@, name@) && m@ == project_not_found_text(name@),
        },
{
    match find_key(ps, name) {
        Some(i) => {
            proof {
                lemma_index_of_key(ps@, name@, i as int);
            }
            Ok(i)
        },
        None => {
            let mut m = String::from_str("Project ");
            append_quoted(&mut m, name);
            m.append(" not found");
            Err(m)
        },
    }
}

pub open spec fn language_or_unknown(l: Option<String>) -> Seq<char> {
    match l {
        Some(x) => x@,
        None => "unknown"@,
    }
}

pub open spec fn project_list_text(ps: Seq<(String, ProjectData)>) -> Seq<char>
    decreases ps.len(),
{
    if ps.len() == 0 {
        seq![]
    } else {
        let e = ps.last();
        project_list_text(ps.drop_last()) + "- **"@ + e.0@ + "** ("@ + language_or_unknown(
            e.1.config.project.language,
        ) + "): "@ + e.1.config.project.description@ + "\n  Path: "@ + e.1.path@ + "\n"@
    }
}

pub open spec fn list_projects_spec(ps: Seq<(String, ProjectData)>) -> Seq<char> {
    if ps.len() == 0 {
        "No projects found. Make sure .jumble/project.toml files exist in your workspace."@
    } else {
        project_list_text(ps)
    }
}

fn language_text(l: &Option<String>) -> (r: &str)
    ensures
        r@ == language_or_unknown(*l),
{
    match l {
        Some(x) => x.as_str(),
        None => "unknown",
    }
}

/// Every project with its language, description and path.
pub fn list_projects(projects: &Vec<(String, ProjectData)>) -> (r: Result<String, String>)
    ensures
        result_view(r) == Ok::<Seq<char>, Seq<char>>(list_projects_spec(projects@)),
{
    if projects.len() == 0 {
        return Ok(
            String::from_str(
                "No projects found. Make sure .jumble/project.toml files exist in your workspace.",
            ),
        );
    }
    let mut output = String::new();
    let mut i: usize = 0;
    while i < projects.len()
        invariant
            i <= projects.len(),
            output@ == project_list_text(projects@.subrange(0, i as int)),
        decreases projects.len() - i,
    {
        assert(projects@.subrange(0, i + 1).drop_last() =~= projects@.subrange(0, i as int));
        let e = &projects[i];
        output.append("- **");
        output.append(e.0.as_str());
        output.append("** (");
        output.append(language_text(&e.1.config.project.language));
        output.append("): ");
        output.append(e.1.config.project.description.as_str());
        output.append("\n  Path: ");
        output.append(e.1.path.as_str());
        output.append("\n");
        i = i + 1;
    }
    assert(projects@.subrange(0, i as int) =~= projects@);
    Ok(output)
}

pub open spec fn opt_line(label: Seq<char>, v: Option<String>) -> Seq<char> {
    match v {
        Some(x) => label + x@ + "\n"@,
        None => seq![],
    }
}

pub open spec fn concept_summaries(cs: Seq<(String, Concept)>) -> Seq<char>
    decreases cs.len(),
{
    if cs.len() == 0 {
        seq![]
    } else {
        concept_summaries(cs.drop_last()) + "- **"@ + cs.last().0@ + "**: "@ + cs.last().1.summary@
            + "\n"@
    }
}

pub open spec fn project_info_text(d: ProjectData) -> Seq<char> {
    let c = d.config;
    "# "@ + c.project.name@ + "\n\n"@ + "**Description:** "@ + c.project.description@ + "\n"@
        + opt_line("**Language:** "@, c.project.language) + opt_line(
        "**Version:** "@,
        c.project.version,
    ) + opt_line("**Repository:** "@, c.project.repository) + "**Path:** "@ + d.path@ + "\n"@ + (
    if c.entry_points@.len() > 0 {
        "\n## Entry Points\n"@ + entry_points_text(c.entry_points@)
    } else {
        seq![]
    }) + (if c.concepts@.len() > 0 {
        "\n## Concepts\n"@ + concept_summaries(c.concepts@)
    } else {
        seq![]
    })
}

pub open spec fn project_field_text(d: ProjectData, f: Seq<char>) -> Result<Seq<char>, Seq<char>> {
    if f == "commands"@ {
        Ok(commands_text(d.config.commands@))
    } else if f == "entry_points"@ {
        Ok(entry_points_text(d.config.entry_points@))
    } else if f == "dependencies"@ {
        Ok(dependencies_text(d.config.dependencies.internal@, d.config.dependencies.external@))
    } else if f == "api"@ {
        Ok(api_text(d.config.api))
    } else if f == "related_projects"@ {
        Ok(
            related_projects_text(
                d.config.related_projects.upstream@,
                d.config.related_projects.downstream@,
            ),
        )
    } else {
        Err("Unknown field: "@ + f)
    }
}

pub open spec fn get_project_info_spec(ps: Seq<(String, ProjectData)>, args: ToolArgs) -> Result<
    Seq<char>,
    Seq<char>,
> {
    match args.project {
        None => Err(missing_text("project"@)),
        Some(p) => if !has_key(ps, p@) {
            Err(project_not_found_text(p@))
        } else {
            let d = project_named(ps, p@);
            match args.field {
                Some(f) => project_field_text(d, f@),
                None => Ok(project_info_text(d)),
            }
        },
    }
}

fn append_opt_line(out: &mut String, label: &str, v: &Option<String>)
    ensures
        final(out)@ == old(out)@ + opt_line(label@, *v),
{
    match v {
        Some(x) => {
            out.append(label);
            out.append(x.as_str());
            out.append("\n");
        },
        None => {},
    }
}

fn append_concept_summaries(out: &mut String, cs: &Vec<(String, Concept)>)
    ensures
        final(out)@ == old(out)@ + concept_summaries(cs@),
{
    let ghost start = out@;
    let mut i: usize = 0;
    while i < cs.len()
        invariant
            i <= cs.len(),
            out@ == start + concept_summaries(cs@.subrange(0, i as int)),
        decreases cs.len() - i,
    {
        assert(cs@.subrange(0, i + 1).drop_last() =~= cs@.subrange(0, i as int));
        out.append("- **");
        out.append(cs[i].0.as_str());
        out.append("**: ");
        out.append(cs[i].1.summary.as_str());
        out.append("\n");
        i = i + 1;
    }
    assert(cs@.subrange(0, i as int) =~= cs@);
}

fn project_info_full(d: &ProjectData) -> (r: String)
    ensures
        r@ == project_info_text(*d),
{
    let c = &d.config;
    let mut output = String::from_str("# ");
    output.append(c.project.name.as_str());
    output.append("\n\n");
    output.append("**Description:** ");
    output.append(c.project.description.as_str());
    output.append("\n");
    append_opt_line(&mut output, "**Language:** ", &c.project.language);
    append_opt_line(&mut output, "**Version:** ", &c.project.version);
    append_opt_line(&mut output, "**Repository:** ", &c.project.repository);
    output.append("**Path:** ");
    output.append(d.path.as_str());
    output.append("\n");
    if c.entry_points.len() > 0 {
        output.append("\n## Entry Points\n");
        let ep = format_entry_points(&c.entry_points);
        output.append(ep.as_str());
    }
    if c.concepts.len() > 0 {
        output.append("\n## Concepts\n");
        append_concept_summaries(&mut output, &c.concepts);
    }
    output
}

/// A project's metadata, or one field of it.
pub fn get_project_info(projects: &Vec<(String, ProjectData)>, args: &ToolArgs) -> (r: Result<
    String,
    String,
>)
    ensures
        result_view(r) == get_project_info_spec(projects@, *args),
{
    let project_name = match &args.project {
        Some(p) => p,
        None => return Err(missing("project")),
    };
    let i = match lookup_project(projects, project_name.as_str()) {
        Ok(i) => i,
        Err(m) => return Err(m),
    };
    let d = &projects[i].1;
    match &args.field {
        Some(f) => {
            let f = f.as_str();
            if text_eq(f, "commands") {
                Ok(format_commands(&d.config.commands))
            } else if text_eq(f, "entry_points") {
                Ok(format_entry_points(&d.config.entry_points))
            } else if text_eq(f, "dependencies") {
                Ok(format_dependencies(&d.config.dependencies))
            } else if text_eq(f, "api") {
                Ok(format_api(&d.config.api))
            } else if text_eq(f, "related_projects") {
                Ok(format_related_projects(&d.config.related_projects))
            } else {
                let mut m = String::from_str("Unknown field: ");
                m.append(f);
                Err(m)
            }
        },
        None => Ok(project_info_full(d)),
    }
}

pub open spec fn get_commands_spec(ps: Seq<(String, ProjectData)>, args: ToolArgs) -> Result<
    Seq<char>,
    Seq<char>,
> {
    match args.project {
        None => Err(missing_text("project"@)),
        Some(p) => if !has_key(ps, p@) {
            Err(project_not_found_text(p@))
        } else {
            let cmds = project_named(ps, p@).config.commands@;
            match args.command_type {
                Some(t) => if has_key(cmds, t@) {
                    Ok(t@ + ": "@ + cmds[index_of_key(cmds, t@)].1@)
                } else {
                    Err("Command "@ + quoted(t@) + " not found for project "@ + quoted(p@))
                },
                None => Ok(commands_text(cmds)),
            }
        },
    }
}

/// A project's commands, or the one of a given type.
pub fn get_commands(projects: &Vec<(String, ProjectData)>, args: &ToolArgs) -> (r: Result<
    String,
    String,
>)
    ensures
        result_view(r) == get_commands_spec(projects@, *args),
{
    let project_name = match &args.project {
        Some(p) => p,
        None => return Err(missing("project")),
    };
    let i = match lookup_project(projects, project_name.as_str()) {
        Ok(i) => i,
        Err(m) => return Err(m),
    };
    let cmds = &projects[i].1.config.commands;
    match &args.command_type {
        Some(t) => match find_key(cmds, t.as_str()) {
            Some(j) => {
                proof {
                    lemma_index_of_key(cmds@, t@, j as int);
                }
                let mut out = t.clone();
                out.append(": ");
                out.append(cmds[j].1.as_str());
                Ok(out)
            },
            None => {
                let mut m = String::from_str("Command ");
                append_quoted(&mut m, t.as_str());
                m.append(" not found for project ");
                append_quoted(&mut m, project_name.as_str());
                Err(m)
            },
        },
        None => Ok(format_commands(cmds)),
    }
}

/// A concept's name equals the query, ignoring case.
pub open spec fn same_folded(name: Seq<char>, q: Seq<char>) -> bool {
    lower_of(name) == lower_of(q)
}

/// The query occurs in a concept's name or summary, ignoring case.
pub open spec fn concept_mentions(c: (String, Concept), q: Seq<char>) -> bool {
    is_infix(lower_of(c.0@), lower_of(q)) || is_infix(lower_of(c.1.summary@), lower_of(q))
}

pub open spec fn first_same_folded_at(cs: Seq<(String, Concept)>, q: Seq<char>, i: int) -> bool {
    0 <= i < cs.len() && same_folded(cs[i].0@, q) && forall|j: int|
        0 <= j < i ==> !same_folded(#[trigger] cs[j].0@, q)
}

pub open spec fn first_mention_at(cs: Seq<(String, Concept)>, q: Seq<char>, i: int) -> bool {
    0 <= i < cs.len() && concept_mentions(cs[i], q) && forall|j: int|
        0 <= j < i ==> !concept_mentions(#[trigger] cs[j], q)
}

/// The answer for a concept query: the concept with exactly that name; else
/// the first whose name equals it ignoring case; else the first whose name or
/// summary contains it ignoring case; else an error listing every concept.
pub open spec fn architecture_answer(path: Seq<char>, cs: Seq<(String, Concept)>, q: Seq<char>) -> Result<
    Seq<char>,
    Seq<char>,
> {
    if has_key(cs, q) {
        Ok(concept_text(path, q, cs[index_of_key(cs, q)].1))
    } else if exists|i: int| first_same_folded_at(cs, q, i) {
        let i = choose|i: int| first_same_folded_at(cs, q, i);
        Ok(concept_text(path, cs[i].0@, cs[i].1))
    } else if exists|i: int| first_mention_at(cs, q, i) {
        let i = choose|i: int| first_mention_at(cs, q, i);
        Ok(concept_text(path, cs[i].0@, cs[i].1))
    } else {
        Err(
            "Concept "@ + quoted(q) + " not found. Available concepts: "@ + join_sep(
                keys_of(cs),
                ", "@,
            ),
        )
    }
}

pub open spec fn get_architecture_spec(ps: Seq<(String, ProjectData)>, args: ToolArgs) -> Result<
    Seq<char>,
    Seq<char>,
> {
    match args.project {
        None => Err(missing_text("project"@)),
        Some(p) => match args.concept {
            None => Err(missing_text("concept"@)),
            Some(c) => if !has_key(ps, p@) {
                Err(project_not_found_text(p@))
            } else {
                let d = project_named(ps, p@);
                architecture_answer(d.path@, d.config.concepts@, c@)
            },
        },
    }
}

/// Whether concept `c` mentions the query whose lowercase form is `lq`.
fn mentions(c: &(String, Concept), lq: &str, q: Ghost<Seq<char>>) -> (r: bool)
    requires
        lq@ == lower_of(q@),
    ensures
        r == concept_mentions(*c, q@),
{
    let ln = lowercase(c.0.as_str());
    if contains_text(ln.as_str(), lq) {
        return true;
    }
    let ls = lowercase(c.1.summary.as_str());
    contains_text(ls.as_str(), lq)
}

/// `fnames[i]` is the first folded name equal to the folded query.
pub open spec fn first_folded_at(fnames: Seq<String>, fq: Seq<char>, i: int) -> bool {
    0 <= i < fnames.len() && fnames[i]@ == fq && forall|j: int|
        0 <= j < i ==> (#[trigger] fnames[j])@ != fq
}

/// Entry `i` is the first whose folded name or folded summary contains the
/// folded query.
pub open spec fn first_folded_mention_at(fnames: Seq<String>, fsums: Seq<String>, fq: Seq<char>, i: int) -> bool {
    &&& 0 <= i < fnames.len()
    &&& i < fsums.len()
    &&& mentions_folded(fnames, fsums, fq, i)
    &&& no_mention_before(fnames, fsums, fq, i)
}

/// The concept a query selects, given the names and summaries and the query
/// already case-folded: the concept named exactly as asked; else the first
/// whose folded name equals the folded query; else the first whose folded
/// name or summary contains it; else none.
pub open spec fn concept_choice(
    cs: Seq<(String, Concept)>,
    fnames: Seq<String>,
    fsums: Seq<String>,
    q: Seq<char>,
    fq: Seq<char>,
) -> Option<int> {
    if has_key(cs, q) {
        Some(index_of_key(cs, q))
    } else if exists|i: int| first_folded_at(fnames, fq, i) {
        Some(choose|i: int| first_folded_at(fnames, fq, i))
    } else if exists|i: int| first_folded_mention_at(fnames, fsums, fq, i) {
        Some(choose|i: int| first_folded_mention_at(fnames, fsums, fq, i))
    } else {
        None
    }
}

/// Selects a concept from case-folded names, summaries and query.
pub fn select_concept(
    concepts: &Vec<(String, Concept)>,
    folded_names: &Vec<String>,
    folded_summaries: &Vec<String>,
    query: &str,
    folded_query: &str,
) -> (r: Option<usize>)
    requires
        folded_names.len() == concepts.len(),
        folded_summaries.len() == concepts.len(),
    ensures
        match r {
            Some(i) => i < concepts.len() && concept_choice(
                concepts@,
                folded_names@,
                folded_summaries@,
                query@,
                folded_query@,
            ) == Some(i as int) && (has_key(concepts@, query@) ==> concepts@[i as int].0@ == query@),
            None => concept_choice(
                concepts@,
                folded_names@,
                folded_summaries@,
                query@,
                folded_query@,
            ) is None,
        },
{
    let ghost cs = concepts@;
    let ghost fns = folded_names@;
    let ghost fss = folded_summaries@;
    let ghost fq = folded_query@;
    match find_key(concepts, query) {
        Some(i) => {
            proof {
                lemma_index_of_key(cs, query@, i as int);
            }
            return Some(i);
        },
        None => {},
    }
    let mut i: usize = 0;
    while i < folded_names.len()
        invariant
            i <= folded_names.len(),
            fns == folded_names@,
            cs == concepts@,
            folded_names.len() == concepts.len(),
            fq == folded_query@,
            !has_key(cs, query@),
            forall|j: int| 0 <= j < i ==> (#[trigger] fns[j])@ != fq,
        decreases folded_names.len() - i,
    {
        if text_eq(folded_names[i].as_str(), folded_query) {
            proof {
                assert(first_folded_at(fns, fq, i as int));
                let k = choose|k: int| first_folded_at(fns, fq, k);
                assert(k == i);
            }
            return Some(i);
        }
        i = i + 1;
    }
    assert(!exists|k: int| first_folded_at(fns, fq, k));
    let mut i: usize = 0;
    while i < folded_names.len()
        invariant
            i <= folded_names.len(),
            folded_summaries.len() == folded_names.len(),
            folded_names.len() == concepts.len(),
            cs == concepts@,
            fns == folded_names@,
            fss == folded_summaries@,
            fq == folded_query@,
            !has_key(cs, query@),
            !exists|k: int| first_folded_at(fns, fq, k),
            no_mention_before(fns, fss, fq, i as int),
        decreases folded_names.len() - i,
    {
        let in_name = contains_text(folded_names[i].as_str(), folded_query);
        let in_summary = contains_text(folded_summaries[i].as_str(), folded_query);
        if in_name || in_summary {
            proof {
                assert(first_folded_mention_at(fns, fss, fq, i as int));
                let k = choose|k: int| first_folded_mention_at(fns, fss, fq, k);
                assert(k == i);
            }
            return Some(i);
        }
        assert(no_mention_before(fns, fss, fq, i + 1));
        i = i + 1;
    }
    assert(!exists|k: int| first_folded_mention_at(fns, fss, fq, k));
    None
}

/// Entry `j`'s folded name and summary are those of concept `j`.
pub open spec fn folded_at(fnames: Seq<String>, fsums: Seq<String>, cs: Seq<(String, Concept)>, j: int) -> bool {
    fnames[j]@ == lower_of(cs[j].0@) && fsums[j]@ == lower_of(cs[j].1.summary@)
}

/// The first `k` folded names and summaries are those of the concepts.
pub open spec fn folded_prefix(fnames: Seq<String>, fsums: Seq<String>, cs: Seq<(String, Concept)>, k: int) -> bool {
    forall|j: int| 0 <= j < k ==> #[trigger] folded_at(fnames, fsums, cs, j)
}

/// No entry before `i` mentions the folded query.
pub open spec fn no_mention_before(fnames: Seq<String>, fsums: Seq<String>, fq: Seq<char>, i: int) -> bool {
    forall|j: int| 0 <= j < i ==> !#[trigger] mentions_folded(fnames, fsums, fq, j)
}

pub open spec fn mentions_folded(fnames: Seq<String>, fsums: Seq<String>, fq: Seq<char>, j: int) -> bool {
    is_infix(fnames[j]@, fq) || is_infix(fsums[j]@, fq)
}

/// The concept a query selects, in order of preference.
pub fn find_concept(path: &str, concepts: &Vec<(String, Concept)>, concept_name: &str) -> (r: Result<
    String,
    String,
>)
    ensures
        result_view(r) == architecture_answer(path@, concepts@, concept_name@),
{
    let ghost cs = concepts@;
    let ghost q = concept_name@;
    let lq = lowercase(concept_name);
    let mut fnames: Vec<String> = Vec::new();
    let mut fsums: Vec<String> = Vec::new();
    let mut k: usize = 0;
    while k < concepts.len()
        invariant
            k <= concepts.len(),
            cs == concepts@,
            fnames.len() == k,
            fsums.len() == k,
            folded_prefix(fnames@, fsums@, cs, k as int),
        decreases concepts.len() - k,
    {
        let ln = lowercase(concepts[k].0.as_str());
        let ls = lowercase(concepts[k].1.summary.as_str());
        let ghost n0 = fnames@;
        let ghost s0 = fsums@;
        fnames.push(ln);
        fsums.push(ls);
        assert forall|j: int| 0 <= j < k + 1 implies folded_at(fnames@, fsums@, cs, j) by {
            if j < k {
                assert(folded_at(n0, s0, cs, j));
                assert(fnames@[j] == n0[j]);
                assert(fsums@[j] == s0[j]);
            } else {
                assert(fnames@[j] == ln);
                assert(fsums@[j] == ls);
                assert(cs[j] == concepts@[k as int]);
            }
        }
        k = k + 1;
    }
    let ghost fns = fnames@;
    let ghost fss = fsums@;
    proof {
        assert forall|i: int| first_folded_at(fns, lq@, i) <==> first_same_folded_at(cs, q, i) by {
            if 0 <= i < cs.len() {
                assert(folded_at(fns, fss, cs, i));
                if first_same_folded_at(cs, q, i) {
                    assert forall|j: int| 0 <= j < i implies (#[trigger] fns[j])@ != lq@ by {
                        assert(folded_at(fns, fss, cs, j));
                        assert(!same_folded(cs[j].0@, q));
                    }
                }
                if first_folded_at(fns, lq@, i) {
                    assert forall|j: int| 0 <= j < i implies !same_folded(#[trigger] cs[j].0@, q) by {
                        assert(folded_at(fns, fss, cs, j));
                    }
                }
            }
        }
        assert forall|i: int|
            first_folded_mention_at(fns, fss, lq@, i) <==> first_mention_at(cs, q, i) by {
            if 0 <= i < cs.len() {
                assert(folded_at(fns, fss, cs, i));
                if first_mention_at(cs, q, i) {
                    assert forall|j: int|
                        0 <= j < i implies !#[trigger] mentions_folded(fns, fss, lq@, j) by {
                        assert(folded_at(fns, fss, cs, j));
                        assert(!concept_mentions(cs[j], q));
                    }
                }
                if first_folded_mention_at(fns, fss, lq@, i) {
                    assert forall|j: int| 0 <= j < i implies !concept_mentions(#[trigger] cs[j], q) by {
                        assert(folded_at(fns, fss, cs, j));
                        assert(!mentions_folded(fns, fss, lq@, j));
                    }
                }
            }
        }
    }
    match select_concept(concepts, &fnames, &fsums, concept_name, lq.as_str()) {
        Some(i) => {
            proof {
                if has_key(cs, q) {
                    assert(cs[i as int].0@ == q);
                } else if exists|k: int| first_folded_at(fns, lq@, k) {
                    assert(first_folded_at(fns, lq@, i as int));
                    assert(first_same_folded_at(cs, q, i as int));
                    let k2 = choose|k: int| first_same_folded_at(cs, q, k);
                    assert(k2 == i) by {
                        if k2 < i {
                            assert(same_folded(cs[k2].0@, q));
                        } else if i < k2 {
                            assert(same_folded(cs[i as int].0@, q));
                        }
                    }
                } else {
                    assert(first_folded_mention_at(fns, fss, lq@, i as int));
                    assert(first_mention_at(cs, q, i as int));
                    assert(!exists|k: int| first_same_folded_at(cs, q, k)) by {
                        if exists|k: int| first_same_folded_at(cs, q, k) {
                            let k3 = choose|k: int| first_same_folded_at(cs, q, k);
                            assert(first_folded_at(fns, lq@, k3));
                        }
                    }
                    let k2 = choose|k: int| first_mention_at(cs, q, k);
                    assert(k2 == i) by {
                        if k2 < i {
                            assert(concept_mentions(cs[k2], q));
                        } else if i < k2 {
                            assert(concept_mentions(cs[i as int], q));
                        }
                    }
                }
            }
            Ok(format_concept(path, concepts[i].0.as_str(), &concepts[i].1))
        },
        None => {
            proof {
                assert(!exists|k: int| first_same_folded_at(cs, q, k)) by {
                    if exists|k: int| first_same_folded_at(cs, q, k) {
                        let k3 = choose|k: int| first_same_folded_at(cs, q, k);
                        assert(first_folded_at(fns, lq@, k3));
                    }
                }
                assert(!exists|k: int| first_mention_at(cs, q, k)) by {
                    if exists|k: int| first_mention_at(cs, q, k) {
                        let k3 = choose|k: int| first_mention_at(cs, q, k);
                        assert(first_folded_mention_at(fns, fss, lq@, k3));
                    }
                }
            }
            let names = key_list(concepts);
            let joined = join_strings(&names, ", ");
            let mut m = String::from_str("Concept ");
            append_quoted(&mut m, concept_name);
            m.append(" not found. Available concepts: ");
            m.append(joined.as_str());
            Err(m)
        },
    }
}

/// A concept of a project and its files.
pub fn get_architecture(projects: &Vec<(String, ProjectData)>, args: &ToolArgs) -> (r: Result<
    String,
    String,
>)
    ensures
        result_view(r) == get_architecture_spec(projects@, *args),
{
    let project_name = match &args.project {
        Some(p) => p,
        None => return Err(missing("project")),
    };
    let concept_name = match &args.concept {
        Some(c) => c,
        None => return Err(missing("concept")),
    };
    let i = match lookup_project(projects, project_name.as_str()) {
        Ok(i) => i,
        Err(m) => return Err(m),
    };
    let d = &projects[i].1;
    find_concept(d.path.as_str(), &d.config.concepts, concept_name.as_str())
}

pub open spec fn related_item_text(path: Seq<char>, c: (String, Concept)) -> Seq<char> {
    "## "@ + c.0@ + "\n"@ + c.1.summary@ + "\n\nFiles:\n"@ + wrap_each(
        c.1.files@,
        "- "@ + path + "/"@,
        "\n"@,
    ) + "\n"@
}

pub open spec fn related_listing(path: Seq<char>, cs: Seq<(String, Concept)>, q: Seq<char>) -> Seq<char>
    decreases cs.len(),
{
    if cs.len() == 0 {
        seq![]
    } else {
        related_listing(path, cs.drop_last(), q) + if concept_mentions(cs.last(), q) {
            related_item_text(path, cs.last())
        } else {
            seq![]
        }
    }
}

pub open spec fn get_related_files_spec(ps: Seq<(String, ProjectData)>, args: ToolArgs) -> Result<
    Seq<char>,
    Seq<char>,
> {
    match args.project {
        None => Err(missing_text("project"@)),
        Some(p) => match args.query {
            None => Err(missing_text("query"@)),
            Some(q) => if !has_key(ps, p@) {
                Err(project_not_found_text(p@))
            } else {
                let d = project_named(ps, p@);
                let cs = d.config.concepts@;
                if !exists|i: int| 0 <= i < cs.len() && concept_mentions(cs[i], q@) {
                    Err("No concepts matching "@ + quoted(q@) + " found"@)
                } else {
                    Ok(
                        "Files related to "@ + quoted(q@) + ": \n\n"@ + related_listing(
                            d.path@,
                            cs,
                            q@,
                        ),
                    )
                }
            },
        },
    }
}

/// The concepts whose name or summary mention a query, with their files.
pub fn get_related_files(projects: &Vec<(String, ProjectData)>, args: &ToolArgs) -> (r: Result<
    String,
    String,
>)
    ensures
        result_view(r) == get_related_files_spec(projects@, *args),
{
    let project_name = match &args.project {
        Some(p) => p,
        None => return Err(missing("project")),
    };
    let query = match &args.query {
        Some(q) => q,
        None => return Err(missing("query")),
    };
    let i = match lookup_project(projects, project_name.as_str()) {
        Ok(i) => i,
        Err(m) => return Err(m),
    };
    let d = &projects[i].1;
    let concepts = &d.config.concepts;
    let ghost cs = concepts@;
    let ghost q = query@;
    let lq = lowercase(query.as_str());
    let mut body = String::new();
    let mut found = false;
    let mut prefix = String::from_str("- ");
    prefix.append(d.path.as_str());
    prefix.append("/");
    let mut k: usize = 0;
    while k < concepts.len()
        invariant
            k <= concepts.len(),
            cs == concepts@,
            lq@ == lower_of(q),
            prefix@ == "- "@ + d.path@ + "/"@,
            body@ == related_listing(d.path@, cs.subrange(0, k as int), q),
            found == exists|j: int| 0 <= j < k && concept_mentions(cs[j], q),
        decreases concepts.len() - k,
    {
        assert(cs.subrange(0, k + 1).drop_last() =~= cs.subrange(0, k as int));
        let c = &concepts[k];
        if mentions(c, lq.as_str(), Ghost(q)) {
            body.append("## ");
            body.append(c.0.as_str());
            body.append("\n");
            body.append(c.1.summary.as_str());
            body.append("\n\nFiles:\n");
            crate::text::append_wrapped(&mut body, &c.1.files, prefix.as_str(), "\n");
            body.append("\n");
            found = true;
        }
        k = k + 1;
    }
    assert(cs.subrange(0, k as int) =~= cs);
    if !found {
        let mut m = String::from_str("No concepts matching ");
        append_quoted(&mut m, query.as_str());
        m.append(" found");
        return Err(m);
    }
    let mut output = String::from_str("Files related to ");
    append_quoted(&mut output, query.as_str());
    output.append(": \n\n");
    output.append(body.as_str());
    Ok(output)
}

/// The description a skill's header gives, when it is not empty.
pub open spec fn described(info: SkillInfo) -> Option<Seq<char>> {
    match info.frontmatter {
        Some(fm) => match fm.description {
            Some(d) => if d@.len() > 0 {
                Some(d@)
            } else {
                None
            },
            None => None,
        },
        None => None,
    }
}

pub open spec fn first_line_of(s: Seq<char>) -> Seq<char> {
    if lines_of(s).len() > 0 {
        lines_of(s)[0]
    } else {
        seq![]
    }
}

/// A skill's line in a listing: its key, then its description, or else the
/// trimmed first line of its preview when that is not empty.
pub open spec fn skill_line(e: (String, SkillInfo)) -> Seq<char> {
    "- "@ + e.0@ + match described(e.1) {
        Some(d) => ": "@ + d,
        None => {
            let l = trim_of(first_line_of(e.1.preview@));
            if l.len() > 0 {
                ": "@ + l
            } else {
                seq![]
            }
        },
    } + "\n"@
}

pub open spec fn skill_lines(s: Seq<(String, SkillInfo)>) -> Seq<char>
    decreases s.len(),
{
    if s.len() == 0 {
        seq![]
    } else {
        skill_lines(s.drop_last()) + skill_line(s.last())
    }
}

pub open spec fn list_skills_spec(ps: Seq<(String, ProjectData)>, args: ToolArgs) -> Result<
    Seq<char>,
    Seq<char>,
> {
    match args.project {
        None => Err(missing_text("project"@)),
        Some(p) => if !has_key(ps, p@) {
            Err(project_not_found_text(p@))
        } else {
            let sk = project_named(ps, p@).skills.skills@;
            if sk.len() == 0 {
                Ok(
                    "No skills found for "@ + quoted(p@)
                        + ". Create .jumble/skills/*.md files to add task-specific context."@,
                )
            } else {
                Ok(
                    "Available skills for "@ + quoted(p@) + ":\n\n"@ + skill_lines(sk)
                        + "\nUse get_skill(project, topic) to retrieve a specific skill."@,
                )
            }
        },
    }
}

fn append_skill_line(out: &mut String, e: &(String, SkillInfo))
    ensures
        final(out)@ == old(out)@ + skill_line(*e),
{
    out.append("- ");
    out.append(e.0.as_str());
    let mut done = false;
    match &e.1.frontmatter {
        Some(fm) => match &fm.description {
            Some(d) => {
                if !d.as_str().is_empty() {
                    out.append(": ");
                    out.append(d.as_str());
                    done = true;
                }
            },
            None => {},
        },
        None => {},
    }
    if !done {
        let l = first_line(e.1.preview.as_str());
        let t = trim_text(l.as_str());
        if !t.as_str().is_empty() {
            out.append(": ");
            out.append(t.as_str());
        }
    }
    out.append("\n");
}

/// The skills of a project, each with a short description.
pub fn list_skills(projects: &Vec<(String, ProjectData)>, args: &ToolArgs) -> (r: Result<
    String,
    String,
>)
    ensures
        result_view(r) == list_skills_spec(projects@, *args),
{
    let project_name = match &args.project {
        Some(p) => p,
        None => return Err(missing("project")),
    };
    let i = match lookup_project(projects, project_name.as_str()) {
        Ok(i) => i,
        Err(m) => return Err(m),
    };
    let sk = &projects[i].1.skills.skills;
    if sk.len() == 0 {
        let mut m = String::from_str("No skills found for ");
        append_quoted(&mut m, project_name.as_str());
        m.append(". Create .jumble/skills/*.md files to add task-specific context.");
        return Ok(m);
    }
    let mut output = String::from_str("Available skills for ");
    append_quoted(&mut output, project_name.as_str());
    output.append(":\n\n");
    let ghost start = output@;
    let mut k: usize = 0;
    while k < sk.len()
        invariant
            k <= sk.len(),
            output@ == start + skill_lines(sk@.subrange(0, k as int)),
        decreases sk.len() - k,
    {
        assert(sk@.subrange(0, k + 1).drop_last() =~= sk@.subrange(0, k as int));
        append_skill_line(&mut output, &sk[k]);
        k = k + 1;
    }
    assert(sk@.subrange(0, k as int) =~= sk@);
    output.append("\nUse get_skill(project, topic) to retrieve a specific skill.");
    Ok(output)
}

/// Where a skill lives: the path of its file and, for a structured skill, its
/// directory.
#[derive(Debug, Clone)]
pub struct SkillLocation {
    pub path: String,
    pub skill_dir: Option<String>,
}

pub open spec fn get_skill_spec(ps: Seq<(String, ProjectData)>, args: ToolArgs) -> Result<
    (Seq<char>, Option<Seq<char>>),
    Seq<char>,
> {
    match args.project {
        None => Err(missing_text("project"@)),
        Some(p) => match args.topic {
            None => Err(missing_text("topic"@)),
            Some(t) => if !has_key(ps, p@) {
                Err(project_not_found_text(p@))
            } else {
                let sk = project_named(ps, p@).skills.skills@;
                if has_key(sk, t@) {
                    let info = sk[index_of_key(sk, t@)].1;
                    Ok((info.path@, opt_view(info.skill_dir)))
                } else if sk.len() == 0 {
                    Err("No skills found for "@ + quoted(p@))
                } else {
                    Err(
                        "Skill "@ + quoted(t@) + " not found. Available: "@ + join_sep(
                            keys_of(sk),
                            ", "@,
                        ),
                    )
                }
            },
        },
    }
}

/// The skill a request names: where its file is, to be read and shown.
pub fn get_skill(projects: &Vec<(String, ProjectData)>, args: &ToolArgs) -> (r: Result<
    SkillLocation,
    String,
>)
    ensures
        match r {
            Ok(l) => get_skill_spec(projects@, *args) == Ok::<
                (Seq<char>, Option<Seq<char>>),
                Seq<char>,
            >((l.path@, opt_view(l.skill_dir))),
            Err(m) => get_skill_spec(projects@, *args) == Err::<
                (Seq<char>, Option<Seq<char>>),
                Seq<char>,
            >(m@),
        },
{
    let project_name = match &args.project {
        Some(p) => p,
        None => return Err(missing("project")),
    };
    let topic = match &args.topic {
        Some(t) => t,
        None => return Err(missing("topic")),
    };
    let i = match lookup_project(projects, project_name.as_str()) {
        Ok(i) => i,
        Err(m) => return Err(m),
    };
    let sk = &projects[i].1.skills.skills;
    match find_key(sk, topic.as_str()) {
        Some(j) => {
            proof {
                lemma_index_of_key(sk@, topic@, j as int);
            }
            let info = &sk[j].1;
            let dir = match &info.skill_dir {
                Some(d) => Some(d.clone()),
                None => None,
            };
            Ok(SkillLocation { path: info.path.clone(), skill_dir: dir })
        },
        None => {
            if sk.len() == 0 {
                let mut m = String::from_str("No skills found for ");
                append_quoted(&mut m, project_name.as_str());
                Err(m)
            } else {
                let names = key_list(sk);
                let joined = join_strings(&names, ", ");
                let mut m = String::from_str("Skill ");
                append_quoted(&mut m, topic.as_str());
                m.append(" not found. Available: ");
                m.append(joined.as_str());
                Err(m)
            }
        },
    }
}

/// A file or directory that accompanies a structured skill, relative to the
/// skill's directory.
#[derive(Debug, Clone)]
pub struct CompanionFile {
    pub relative_path: String,
    pub is_dir: bool,
}

/// Position of the last `c` in `s`, or -1.
pub open spec fn last_index_of(s: Seq<char>, c: char) -> int
    decreases s.len(),
{
    if s.len() == 0 {
        -1
    } else if s.last() == c {
        s.len() - 1
    } else {
        last_index_of(s.drop_last(), c)
    }
}

proof fn lemma_last_index_bounds(s: Seq<char>, c: char)
    ensures
        -1 <= last_index_of(s, c) < s.len(),
    decreases s.len(),
{
    if s.len() > 0 {
        lemma_last_index_bounds(s.drop_last(), c);
    }
}

/// How a companion file is named under the heading of the directory last
/// listed: by its file name when it lies in that directory, else by its path.
pub open spec fn companion_label(p: Seq<char>, current: Option<Seq<char>>) -> Seq<char> {
    let k = last_index_of(p, '/');
    if k >= 0 && current == Some(p.subrange(0, k)) {
        p.subrange(k + 1, p.len() as int)
    } else {
        p
    }
}

/// The listing of companions, and the directory last listed.
pub open spec fn companions_scan(cs: Seq<CompanionFile>) -> (Seq<char>, Option<Seq<char>>)
    decreases cs.len(),
{
    if cs.len() == 0 {
        (seq![], None)
    } else {
        let (out, cur) = companions_scan(cs.drop_last());
        let c = cs.last();
        if c.is_dir {
            (out + "\n### "@ + c.relative_path@ + "\n"@, Some(c.relative_path@))
        } else {
            (out + "- `"@ + companion_label(c.relative_path@, cur) + "`\n"@, cur)
        }
    }
}

pub open spec fn skill_with_companions_text(content: Seq<char>, cs: Seq<CompanionFile>) -> Seq<char> {
    content + "\n\n---\n\n"@ + "## Companion Resources\n\n"@
        + "This skill includes additional resources:\n\n"@ + companions_scan(cs).0
}

fn last_slash(s: &str) -> (r: Option<usize>)
    ensures
        match r {
            Some(k) => k as int == last_index_of(s@, '/') && k < s@.len(),
            None => last_index_of(s@, '/') == -1,
        },
{
    let cs = crate::text::chars_vec(s);
    let mut i: usize = cs.len();
    assert(s@.subrange(0, i as int) =~= s@);
    while i > 0
        invariant
            i <= cs.len(),
            cs@ == s@,
            last_index_of(s@, '/') == last_index_of(s@.subrange(0, i as int), '/'),
        decreases i,
    {
        assert(s@.subrange(0, i as int).drop_last() =~= s@.subrange(0, i - 1));
        if cs[i - 1] == '/' {
            return Some(i - 1);
        }
        i = i - 1;
    }
    None
}

/// A skill's text followed by its companion resources, grouped by directory.
pub fn format_skill_with_companions(skill_content: &str, companions: &Vec<CompanionFile>) -> (r: String)
    ensures
        r@ == skill_with_companions_text(skill_content@, companions@),
{
    let mut output = String::from_str(skill_content);
    output.append("\n\n---\n\n");
    output.append("## Companion Resources\n\n");
    output.append("This skill includes additional resources:\n\n");
    let ghost start = output@;
    let mut current_dir: Option<String> = None;
    let mut i: usize = 0;
    while i < companions.len()
        invariant
            i <= companions.len(),
            start + companions_scan(companions@.subrange(0, i as int)).0 == output@,
            companions_scan(companions@.subrange(0, i as int)).1 == opt_view(current_dir),
        decreases companions.len() - i,
    {
        assert(companions@.subrange(0, i + 1).drop_last() =~= companions@.subrange(0, i as int));
        let c = &companions[i];
        if c.is_dir {
            current_dir = Some(c.relative_path.clone());
            output.append("\n### ");
            output.append(c.relative_path.as_str());
            output.append("\n");
        } else {
            let p = c.relative_path.as_str();
            let n = p.unicode_len();
            output.append("- `");
            match last_slash(p) {
                Some(k) => {
                    let dir = p.substring_char(0, k);
                    let same = match &current_dir {
                        Some(cd) => text_eq(cd.as_str(), dir),
                        None => false,
                    };
                    if same {
                        output.append(p.substring_char(k + 1, n));
                    } else {
                        output.append(p);
                    }
                },
                None => {
                    output.append(p);
                },
            }
            output.append("`\n");
        }
        i = i + 1;
    }
    assert(companions@.subrange(0, i as int) =~= companions@);
    output
}

/// A skill as served: its text, followed by its companion resources when it
/// has any.
pub fn render_skill(skill_content: &str, companions: &Vec<CompanionFile>) -> (r: String)
    ensures
        r@ == (if companions@.len() == 0 {
            skill_content@
        } else {
            skill_with_companions_text(skill_content@, companions@)
        }),
{
    if companions.len() == 0 {
        String::from_str(skill_content)
    } else {
        format_skill_with_companions(skill_content, companions)
    }
}

/// Named entries under a heading: `## name`, the text, and a blank line.
pub open spec fn named_entries(s: Seq<(String, String)>) -> Seq<char> {
    pairs_text(s, "## "@, "\n"@, "\n\n"@)
}

pub open spec fn unknown_category_text(c: Seq<char>) -> Seq<char> {
    "Unknown category "@ + quoted(c) + ". Use 'conventions' or 'gotchas'."@
}

/// A category that is neither `conventions` nor `gotchas`.
pub open spec fn unknown_category(c: Option<Seq<char>>) -> bool {
    match c {
        Some(x) => x != "conventions"@ && x != "gotchas"@,
        None => false,
    }
}

/// Rejects an unknown category.
fn check_category(category: &Option<String>) -> (r: Result<(), String>)
    ensures
        match r {
            Ok(()) => !unknown_category(opt_view(*category)),
            Err(m) => unknown_category(opt_view(*category)) && m@ == unknown_category_text(
                opt_view(*category)->0,
            ),
        },
{
    match category {
        Some(c) => {
            let c = c.as_str();
            if text_eq(c, "conventions") || text_eq(c, "gotchas") {
                Ok(())
            } else {
                let mut m = String::from_str("Unknown category ");
                append_quoted(&mut m, c);
                m.append(". Use 'conventions' or 'gotchas'.");
                Err(m)
            }
        },
        None => Ok(()),
    }
}

/// Conventions and gotchas under their headings, filtered by an optional
/// category; `empty_conv` and `empty_gotchas` answer a category that has
/// nothing.
pub open spec fn categorized_text(
    conventions: Seq<(String, String)>,
    gotchas: Seq<(String, String)>,
    category: Option<Seq<char>>,
    conv_heading: Seq<char>,
    gotcha_heading: Seq<char>,
    empty_conv: Seq<char>,
    empty_gotchas: Seq<char>,
) -> Result<Seq<char>, Seq<char>> {
    match category {
        Some(c) => if c == "conventions"@ {
            if conventions.len() == 0 {
                Ok(empty_conv)
            } else {
                Ok(conv_heading + named_entries(conventions))
            }
        } else if c == "gotchas"@ {
            if gotchas.len() == 0 {
                Ok(empty_gotchas)
            } else {
                Ok(gotcha_heading + named_entries(gotchas))
            }
        } else {
            Err(unknown_category_text(c))
        },
        None => Ok(
            (if conventions.len() > 0 {
                conv_heading + named_entries(conventions)
            } else {
                seq![]
            }) + (if gotchas.len() > 0 {
                gotcha_heading + named_entries(gotchas)
            } else {
                seq![]
            }),
        ),
    }
}

fn categorized(
    conventions: &Vec<(String, String)>,
    gotchas: &Vec<(String, String)>,
    category: &Option<String>,
    conv_heading: &str,
    gotcha_heading: &str,
    empty_conv: &str,
    empty_gotchas: &str,
) -> (r: Result<String, String>)
    ensures
        result_view(r) == categorized_text(
            conventions@,
            gotchas@,
            opt_view(*category),
            conv_heading@,
            gotcha_heading@,
            empty_conv@,
            empty_gotchas@,
        ),
{
    let mut output = String::new();
    match category {
        Some(c) => {
            let c = c.as_str();
            if text_eq(c, "conventions") {
                if conventions.len() == 0 {
                    return Ok(String::from_str(empty_conv));
                }
                output.append(conv_heading);
                append_pairs(&mut output, conventions, "## ", "\n", "\n\n");
            } else if text_eq(c, "gotchas") {
                if gotchas.len() == 0 {
                    return Ok(String::from_str(empty_gotchas));
                }
                output.append(gotcha_heading);
                append_pairs(&mut output, gotchas, "## ", "\n", "\n\n");
            } else {
                let mut m = String::from_str("Unknown category ");
                append_quoted(&mut m, c);
                m.append(". Use 'conventions' or 'gotchas'.");
                return Err(m);
            }
        },
        None => {
            if conventions.len() > 0 {
                output.append(conv_heading);
                append_pairs(&mut output, conventions, "## ", "\n", "\n\n");
            }
            let ghost first = output@;
            if gotchas.len() > 0 {
                output.append(gotcha_heading);
                append_pairs(&mut output, gotchas, "## ", "\n", "\n\n");
            }
            assert(output@ =~= first + (if gotchas@.len() > 0 {
                gotcha_heading@ + named_entries(gotchas@)
            } else {
                seq![]
            }));
            assert(first =~= (if conventions@.len() > 0 {
                conv_heading@ + named_entries(conventions@)
            } else {
                seq![]
            }));
        },
    }
    Ok(output)
}

pub open spec fn get_conventions_spec(ps: Seq<(String, ProjectData)>, args: ToolArgs) -> Result<
    Seq<char>,
    Seq<char>,
> {
    match args.project {
        None => Err(missing_text("project"@)),
        Some(p) => if !has_key(ps, p@) {
            Err(project_not_found_text(p@))
        } else {
            let cv = project_named(ps, p@).conventions;
            if unknown_category(opt_view(args.category)) {
                Err(unknown_category_text(opt_view(args.category)->0))
            } else if cv.conventions@.len() == 0 && cv.gotchas@.len() == 0 {
                Ok(
                    "No conventions found for "@ + quoted(p@)
                        + ". Create .jumble/conventions.toml to add project-specific conventions and gotchas."@,
                )
            } else {
                categorized_text(
                    cv.conventions@,
                    cv.gotchas@,
                    opt_view(args.category),
                    "# Conventions for "@ + quoted(p@) + "\n\n"@,
                    "# Gotchas for "@ + quoted(p@) + "\n\n"@,
                    "No conventions defined."@,
                    "No gotchas defined."@,
                )
            }
        },
    }
}

/// A project's conventions and gotchas, or those of one category.
pub fn get_conventions(projects: &Vec<(String, ProjectData)>, args: &ToolArgs) -> (r: Result<
    String,
    String,
>)
    ensures
        result_view(r) == get_conventions_spec(projects@, *args),
{
    let project_name = match &args.project {
        Some(p) => p,
        None => return Err(missing("project")),
    };
    let i = match lookup_project(projects, project_name.as_str()) {
        Ok(i) => i,
        Err(m) => return Err(m),
    };
    let cv = &projects[i].1.conventions;
    match check_category(&args.category) {
        Ok(()) => {},
        Err(m) => return Err(m),
    }
    if cv.conventions.len() == 0 && cv.gotchas.len() == 0 {
        let mut m = String::from_str("No conventions found for ");
        append_quoted(&mut m, project_name.as_str());
        m.append(
            ". Create .jumble/conventions.toml to add project-specific conventions and gotchas.",
        );
        return Ok(m);
    }
    let mut ch = String::from_str("# Conventions for ");
    append_quoted(&mut ch, project_name.as_str());
    ch.append("\n\n");
    let mut gh = String::from_str("# Gotchas for ");
    append_quoted(&mut gh, project_name.as_str());
    gh.append("\n\n");
    categorized(
        &cv.conventions,
        &cv.gotchas,
        &args.category,
        ch.as_str(),
        gh.as_str(),
        "No conventions defined.",
        "No gotchas defined.",
    )
}

/// A document path under a project's root, as `Path::join` forms it: an
/// absolute path stands alone, else a separator goes between the two unless
/// the root is empty or already ends with one.
pub open spec fn joined_path(root: Seq<char>, p: Seq<char>) -> Seq<char> {
    if p.len() > 0 && p[0] == '/' {
        p
    } else if root.len() == 0 || root.last() == '/' {
        root + p
    } else {
        root + "/"@ + p
    }
}

fn join_path(root: &str, p: &str) -> (r: String)
    ensures
        r@ == joined_path(root@, p@),
{
    proof {
        reveal_strlit("/");
    }
    let pn = p.unicode_len();
    if pn > 0 && p.get_char(0) == '/' {
        return String::from_str(p);
    }
    let rn = root.unicode_len();
    let mut r = String::from_str(root);
    if rn == 0 || root.get_char(rn - 1) == '/' {
        r.append(p);
    } else {
        r.append("/");
        r.append(p);
    }
    r
}

pub open spec fn doc_summaries(ds: Seq<(String, DocEntry)>) -> Seq<char>
    decreases ds.len(),
{
    if ds.len() == 0 {
        seq![]
    } else {
        doc_summaries(ds.drop_last()) + "- **"@ + ds.last().0@ + "**: "@ + ds.last().1.summary@
            + "\n"@
    }
}

pub open spec fn get_docs_spec(ps: Seq<(String, ProjectData)>, args: ToolArgs) -> Result<
    Seq<char>,
    Seq<char>,
> {
    match args.project {
        None => Err(missing_text("project"@)),
        Some(p) => if !has_key(ps, p@) {
            Err(project_not_found_text(p@))
        } else {
            let d = project_named(ps, p@);
            let ds = d.docs.docs@;
            if ds.len() == 0 {
                Ok(
                    "No documentation index found for "@ + quoted(p@)
                        + ". Create .jumble/docs.toml to index project documentation."@,
                )
            } else {
                match args.topic {
                    Some(t) => if has_key(ds, t@) {
                        let doc = ds[index_of_key(ds, t@)].1;
                        Ok(
                            "## "@ + t@ + "\n**Summary:** "@ + doc.summary@ + "\n**Path:** "@
                                + joined_path(d.path@, doc.path@),
                        )
                    } else {
                        Err(
                            "Doc "@ + quoted(t@) + " not found. Available: "@ + join_sep(
                                keys_of(ds),
                                ", "@,
                            ),
                        )
                    },
                    None => Ok(
                        "# Documentation for "@ + quoted(p@) + "\n\n"@ + doc_summaries(ds)
                            + "\nUse get_docs(project, topic) to get the path to a specific doc."@,
                    ),
                }
            }
        },
    }
}

/// A project's documentation index, or the path of one document.
pub fn get_docs(projects: &Vec<(String, ProjectData)>, args: &ToolArgs) -> (r: Result<String, String>)
    ensures
        result_view(r) == get_docs_spec(projects@, *args),
{
    let project_name = match &args.project {
        Some(p) => p,
        None => return Err(missing("project")),
    };
    let i = match lookup_project(projects, project_name.as_str()) {
        Ok(i) => i,
        Err(m) => return Err(m),
    };
    let d = &projects[i].1;
    let ds = &d.docs.docs;
    if ds.len() == 0 {
        let mut m = String::from_str("No documentation index found for ");
        append_quoted(&mut m, project_name.as_str());
        m.append(". Create .jumble/docs.toml to index project documentation.");
        return Ok(m);
    }
    match &args.topic {
        Some(t) => match find_key(ds, t.as_str()) {
            Some(j) => {
                proof {
                    lemma_index_of_key(ds@, t@, j as int);
                }
                let doc = &ds[j].1;
                let mut out = String::from_str("## ");
                out.append(t.as_str());
                out.append("\n**Summary:** ");
                out.append(doc.summary.as_str());
                out.append("\n**Path:** ");
                let full = join_path(d.path.as_str(), doc.path.as_str());
                out.append(full.as_str());
                Ok(out)
            },
            None => {
                let names = key_list(ds);
                let joined = join_strings(&names, ", ");
                let mut m = String::from_str("Doc ");
                append_quoted(&mut m, t.as_str());
                m.append(" not found. Available: ");
                m.append(joined.as_str());
                Err(m)
            },
        },
        None => {
            let mut out = String::from_str("# Documentation for ");
            append_quoted(&mut out, project_name.as_str());
            out.append("\n\n");
            let ghost start = out@;
            let mut k: usize = 0;
            while k < ds.len()
                invariant
                    k <= ds.len(),
                    out@ == start + doc_summaries(ds@.subrange(0, k as int)),
                decreases ds.len() - k,
            {
                assert(ds@.subrange(0, k + 1).drop_last() =~= ds@.subrange(0, k as int));
                out.append("- **");
                out.append(ds[k].0.as_str());
                out.append("**: ");
                out.append(ds[k].1.summary.as_str());
                out.append("\n");
                k = k + 1;
            }
            assert(ds@.subrange(0, k as int) =~= ds@);
            out.append("\nUse get_docs(project, topic) to get the path to a specific doc.");
            Ok(out)
        },
    }
}

pub open spec fn workspace_header(ws: Option<WorkspaceConfig>) -> Seq<char> {
    match ws {
        Some(w) => (match w.workspace.name {
            Some(n) => "# "@ + n@ + "\n\n"@,
            None => "# Workspace Overview\n\n"@,
        }) + (match w.workspace.description {
            Some(d) => d@ + "\n\n"@,
            None => seq![],
        }),
        None => "# Workspace Overview\n\n"@,
    }
}

pub open spec fn overview_lines(ps: Seq<(String, ProjectData)>) -> Seq<char>
    decreases ps.len(),
{
    if ps.len() == 0 {
        seq![]
    } else {
        let e = ps.last();
        overview_lines(ps.drop_last()) + "- **"@ + e.0@ + "** ("@ + language_or_unknown(
            e.1.config.project.language,
        ) + "): "@ + e.1.config.project.description@ + "\n"@
    }
}

pub open spec fn has_related(e: (String, ProjectData)) -> bool {
    e.1.config.related_projects.upstream@.len() > 0
        || e.1.config.related_projects.downstream@.len() > 0
}

pub open spec fn dependency_block(e: (String, ProjectData)) -> Seq<char> {
    let up = e.1.config.related_projects.upstream@;
    let down = e.1.config.related_projects.downstream@;
    if has_related(e) {
        "**"@ + e.0@ + "**:\n"@ + (if up.len() > 0 {
            "  ← depends on: "@ + join_sep(views(up), ", "@) + "\n"@
        } else {
            seq![]
        }) + (if down.len() > 0 {
            "  → used by: "@ + join_sep(views(down), ", "@) + "\n"@
        } else {
            seq![]
        })
    } else {
        seq![]
    }
}

pub open spec fn dependency_blocks(ps: Seq<(String, ProjectData)>) -> Seq<char>
    decreases ps.len(),
{
    if ps.len() == 0 {
        seq![]
    } else {
        dependency_blocks(ps.drop_last()) + dependency_block(ps.last())
    }
}

pub open spec fn workspace_overview_text(
    root: Seq<char>,
    ws: Option<WorkspaceConfig>,
    ps: Seq<(String, ProjectData)>,
) -> Seq<char> {
    let base = workspace_header(ws) + "**Root:** "@ + root + "\n\n"@;
    if ps.len() == 0 {
        base + "No projects found.\n"@
    } else {
        base + "## Projects\n\n"@ + overview_lines(ps) + "\n## Dependencies\n\n"@ + (if exists|i: int|
            0 <= i < ps.len() && has_related(#[trigger] ps[i]) {
            dependency_blocks(ps)
        } else {
            "No cross-project dependencies defined.\n"@
        }) + (if ws is Some {
            "\n*Use get_workspace_conventions() for workspace-wide coding standards.*"@
        } else {
            seq![]
        })
    }
}

fn append_dependency_block(out: &mut String, e: &(String, ProjectData))
    ensures
        final(out)@ == old(out)@ + dependency_block(*e),
{
    let up = &e.1.config.related_projects.upstream;
    let down = &e.1.config.related_projects.downstream;
    if up.len() > 0 || down.len() > 0 {
        out.append("**");
        out.append(e.0.as_str());
        out.append("**:\n");
        if up.len() > 0 {
            out.append("  ← depends on: ");
            let j = join_strings(up, ", ");
            out.append(j.as_str());
            out.append("\n");
        }
        if down.len() > 0 {
            out.append("  → used by: ");
            let j = join_strings(down, ", ");
            out.append(j.as_str());
            out.append("\n");
        }
    }
}

/// The workspace at a glance: its name and description, its root, its
/// projects in name order, and how they depend on one another.
pub fn get_workspace_overview(
    root: &str,
    workspace: &Option<WorkspaceConfig>,
    projects: &Vec<(String, ProjectData)>,
) -> (r: Result<String, String>)
    ensures
        result_view(r) == Ok::<Seq<char>, Seq<char>>(
            workspace_overview_text(root@, *workspace, projects@),
        ),
{
    let mut output = String::new();
    match workspace {
        Some(ws) => {
            match &ws.workspace.name {
                Some(name) => {
                    output.append("# ");
                    output.append(name.as_str());
                    output.append("\n\n");
                },
                None => {
                    output.append("# Workspace Overview\n\n");
                },
            }
            match &ws.workspace.description {
                Some(desc) => {
                    output.append(desc.as_str());
                    output.append("\n\n");
                },
                None => {},
            }
        },
        None => {
            output.append("# Workspace Overview\n\n");
        },
    }
    assert(output@ =~= workspace_header(*workspace));
    output.append("**Root:** ");
    output.append(root);
    output.append("\n\n");
    let ghost base = output@;
    if projects.len() == 0 {
        output.append("No projects found.\n");
        return Ok(output);
    }
    output.append("## Projects\n\n");
    let ghost s1 = output@;
    let mut i: usize = 0;
    while i < projects.len()
        invariant
            i <= projects.len(),
            output@ == s1 + overview_lines(projects@.subrange(0, i as int)),
        decreases projects.len() - i,
    {
        assert(projects@.subrange(0, i + 1).drop_last() =~= projects@.subrange(0, i as int));
        let e = &projects[i];
        output.append("- **");
        output.append(e.0.as_str());
        output.append("** (");
        output.append(language_text(&e.1.config.project.language));
        output.append("): ");
        output.append(e.1.config.project.description.as_str());
        output.append("\n");
        i = i + 1;
    }
    assert(projects@.subrange(0, i as int) =~= projects@);
    output.append("\n## Dependencies\n\n");
    let ghost s2 = output@;
    let mut has_deps = false;
    let mut i: usize = 0;
    while i < projects.len()
        invariant
            i <= projects.len(),
            output@ == s2 + dependency_blocks(projects@.subrange(0, i as int)),
            has_deps == exists|j: int| 0 <= j < i && has_related(#[trigger] projects@[j]),
        decreases projects.len() - i,
    {
        assert(projects@.subrange(0, i + 1).drop_last() =~= projects@.subrange(0, i as int));
        let e = &projects[i];
        if e.1.config.related_projects.upstream.len() > 0
            || e.1.config.related_projects.downstream.len() > 0 {
            has_deps = true;
        }
        append_dependency_block(&mut output, e);
        i = i + 1;
    }
    assert(projects@.subrange(0, i as int) =~= projects@);
    if !has_deps {
        proof {
            assert forall|j: int| 0 <= j < projects@.len() implies !has_related(
                #[trigger] projects@[j],
            ) by {}
            lemma_no_blocks(projects@);
        }
        assert(output@ =~= s2);
        output.append("No cross-project dependencies defined.\n");
    }
    let ghost s3 = output@;
    if workspace.is_some() {
        output.append("\n*Use get_workspace_conventions() for workspace-wide coding standards.*");
    }
    assert(output@ =~= s3 + (if workspace is Some {
        "\n*Use get_workspace_conventions() for workspace-wide coding standards.*"@
    } else {
        seq![]
    }));
    Ok(output)
}

proof fn lemma_no_blocks(ps: Seq<(String, ProjectData)>)
    requires
        forall|j: int| 0 <= j < ps.len() ==> !has_related(#[trigger] ps[j]),
    ensures
        dependency_blocks(ps) == Seq::<char>::empty(),
    decreases ps.len(),
{
    if ps.len() > 0 {
        assert(!has_related(ps[ps.len() - 1]));
        lemma_no_blocks(ps.drop_last());
    }
}

pub open spec fn get_workspace_conventions_spec(ws: Option<WorkspaceConfig>, args: ToolArgs) -> Result<
    Seq<char>,
    Seq<char>,
> {
    match ws {
        None => Err(
            "No workspace.toml found. Create .jumble/workspace.toml at the workspace root to define workspace-level conventions."@,
        ),
        Some(w) => if unknown_category(opt_view(args.category)) {
            Err(unknown_category_text(opt_view(args.category)->0))
        } else if w.conventions@.len() == 0 && w.gotchas@.len() == 0 {
            Ok("Workspace config exists but no conventions or gotchas defined."@)
        } else {
            let name = match w.workspace.name {
                Some(n) => n@,
                None => "Workspace"@,
            };
            categorized_text(
                w.conventions@,
                w.gotchas@,
                opt_view(args.category),
                "# "@ + name + " Conventions\n\n"@,
                "# "@ + name + " Gotchas\n\n"@,
                "No workspace conventions defined."@,
                "No workspace gotchas defined."@,
            )
        },
    }
}

/// The workspace-wide conventions and gotchas, or those of one category.
pub fn get_workspace_conventions(workspace: &Option<WorkspaceConfig>, args: &ToolArgs) -> (r: Result<
    String,
    String,
>)
    ensures
        result_view(r) == get_workspace_conventions_spec(*workspace, *args),
{
    let ws = match workspace {
        Some(w) => w,
        None => return Err(
            String::from_str(
                "No workspace.toml found. Create .jumble/workspace.toml at the workspace root to define workspace-level conventions.",
            ),
        ),
    };
    match check_category(&args.category) {
        Ok(()) => {},
        Err(m) => return Err(m),
    }
    if ws.conventions.len() == 0 && ws.gotchas.len() == 0 {
        return Ok(String::from_str("Workspace config exists but no conventions or gotchas defined."));
    }
    let name: &str = match &ws.workspace.name {
        Some(n) => n.as_str(),
        None => "Workspace",
    };
    let mut ch = String::from_str("# ");
    ch.append(name);
    ch.append(" Conventions\n\n");
    let mut gh = String::from_str("# ");
    gh.append(name);
    gh.append(" Gotchas\n\n");
    categorized(
        &ws.conventions,
        &ws.gotchas,
        &args.category,
        ch.as_str(),
        gh.as_str(),
        "No workspace conventions defined.",
        "No workspace gotchas defined.",
    )
}

/// `new` is `old` with only the memory store of project `i` changed.
pub open spec fn only_memory_changed(
    old: Seq<(String, ProjectData)>,
    new: Seq<(String, ProjectData)>,
    i: int,
) -> bool {
    &&& 0 <= i < old.len()
    &&& new.len() == old.len()
    &&& forall|j: int| 0 <= j < old.len() && j != i ==> new[j] == old[j]
    &&& new[i].0 == old[i].0
    &&& new[i].1.path == old[i].1.path
    &&& new[i].1.config == old[i].1.config
    &&& new[i].1.skills == old[i].1.skills
    &&& new[i].1.conventions == old[i].1.conventions
    &&& new[i].1.docs == old[i].1.docs
}

/// The memory store of the project at `i`.
pub open spec fn memories_at(ps: Seq<(String, ProjectData)>, i: int) -> Seq<(String, MemoryEntry)> {
    ps[i].1.memory.entries@
}

/// Takes project `i` out of the index, to be put back once changed.
fn take_project(projects: &mut Vec<(String, ProjectData)>, i: usize) -> (r: (String, ProjectData))
    requires
        i < old(projects).len(),
    ensures
        r == old(projects)@[i as int],
        final(projects)@ == old(projects)@.remove(i as int),
{
    projects.remove(i)
}

proof fn lemma_put_back(
    old: Seq<(String, ProjectData)>,
    i: int,
    e: (String, ProjectData),
)
    requires
        index_wf(old),
        0 <= i < old.len(),
        e.0 == old[i].0,
        e.1.memory.wf(),
        e.1.config == old[i].1.config,
        e.1.skills == old[i].1.skills,
        e.1.conventions == old[i].1.conventions,
        e.1.docs == old[i].1.docs,
    ensures
        old.remove(i).insert(i, e) == old.update(i, e),
        index_wf(old.update(i, e)),
{
    assert(old.remove(i).insert(i, e) =~= old.update(i, e));
    let n = old.update(i, e);
    assert forall|a: int, b: int| 0 <= a < b < n.len() implies crate::text::text_lt(
        n[a].0@,
        n[b].0@,
    ) by {
        assert(n[a].0 == old[a].0);
        assert(n[b].0 == old[b].0);
    }
}

pub open spec fn memory_stored_text(k: Seq<char>, p: Seq<char>) -> Seq<char> {
    "Memory stored: key="@ + quoted(k) + " for project "@ + quoted(p)
}

/// What `store_memory` promises of the index before and after, and of its result.
pub open spec fn store_memory_post(
    old: Seq<(String, ProjectData)>,
    new: Seq<(String, ProjectData)>,
    args: ToolArgs,
    ts: String,
    r: Result<Seq<char>, Seq<char>>,
) -> bool {
    match (args.project, args.key, args.value) {
        (None, _, _) => r == Err::<Seq<char>, Seq<char>>(missing_text("project"@))
            && new == old,
        (Some(p), None, _) => r == Err::<Seq<char>, Seq<char>>(
            missing_text("key"@),
        ) && new == old,
        (Some(p), Some(k), None) => r == Err::<Seq<char>, Seq<char>>(
            missing_text("value"@),
        ) && new == old,
        (Some(p), Some(k), Some(v)) => if !has_key(old, p@) {
            r == Err::<Seq<char>, Seq<char>>(project_not_found_text(p@))
                && new == old
        } else {
            let i = index_of_key(old, p@);
            &&& r == Ok::<Seq<char>, Seq<char>>(memory_stored_text(k@, p@))
            &&& only_memory_changed(old, new, i)
            &&& upserted(
                memories_at(old, i),
                k,
                restamped(
                    entry_for(memories_at(old, i), k@),
                    MemoryEntry { value: v, timestamp: ts, source: args.source },
                ),
                memories_at(new, i),
            )
        },
    }
}

/// Stores a memory under a key of a project, stamped with `timestamp`.
pub fn store_memory(projects: &mut Vec<(String, ProjectData)>, args: &ToolArgs, timestamp: String) -> (r:
    Result<String, String>)
    requires
        index_wf(old(projects)@),
    ensures
        index_wf(final(projects)@),
        store_memory_post(old(projects)@, final(projects)@, *args, timestamp, result_view(r)),
{
    let project_name = match &args.project {
        Some(p) => p,
        None => return Err(missing("project")),
    };
    let key = match &args.key {
        Some(k) => k,
        None => return Err(missing("key")),
    };
    let value = match &args.value {
        Some(v) => v,
        None => return Err(missing("value")),
    };
    let source = match &args.source {
        Some(s) => Some(s.clone()),
        None => None,
    };
    let i = match lookup_project(projects, project_name.as_str()) {
        Ok(i) => i,
        Err(m) => return Err(m),
    };
    let ghost before = projects@;
    let mut data = take_project(projects, i);
    assert(before[i as int].1.memory.wf());
    let entry = MemoryEntry { value: value.clone(), timestamp, source };
    data.1.memory.store(key.clone(), entry);
    proof {
        lemma_put_back(before, i as int, data);
    }
    projects.insert(i, data);
    let mut msg = String::from_str("Memory stored: key=");
    append_quoted(&mut msg, key.as_str());
    msg.append(" for project ");
    append_quoted(&mut msg, project_name.as_str());
    Ok(msg)
}

pub open spec fn get_memory_spec(ps: Seq<(String, ProjectData)>, args: ToolArgs) -> Result<
    Seq<char>,
    Seq<char>,
> {
    match args.project {
        None => Err(missing_text("project"@)),
        Some(p) => match args.key {
            None => Err(missing_text("key"@)),
            Some(k) => if !has_key(ps, p@) {
                Err(project_not_found_text(p@))
            } else {
                let m = project_named(ps, p@).memory.entries@;
                if has_key(m, k@) {
                    Ok(memory_text(k@, m[index_of_key(m, k@)].1))
                } else {
                    Err(key_not_found_text(k@))
                }
            },
        },
    }
}

/// The memory stored under a key of a project.
pub fn get_memory(projects: &Vec<(String, ProjectData)>, args: &ToolArgs) -> (r: Result<
    String,
    String,
>)
    ensures
        result_view(r) == get_memory_spec(projects@, *args),
{
    let project_name = match &args.project {
        Some(p) => p,
        None => return Err(missing("project")),
    };
    let key = match &args.key {
        Some(k) => k,
        None => return Err(missing("key")),
    };
    let i = match lookup_project(projects, project_name.as_str()) {
        Ok(i) => i,
        Err(m) => return Err(m),
    };
    projects[i].1.memory.get_text(key.as_str())
}

pub open spec fn list_memories_spec(ps: Seq<(String, ProjectData)>, args: ToolArgs) -> Result<
    Seq<char>,
    Seq<char>,
> {
    match args.project {
        None => Err(missing_text("project"@)),
        Some(p) => if !has_key(ps, p@) {
            Err(project_not_found_text(p@))
        } else {
            Ok(list_text(project_named(ps, p@).memory.entries@, p@, opt_view(args.pattern)))
        },
    }
}

/// A project's memories in key order, filtered by an optional key pattern.
pub fn list_memories(projects: &Vec<(String, ProjectData)>, args: &ToolArgs) -> (r: Result<
    String,
    String,
>)
    ensures
        result_view(r) == list_memories_spec(projects@, *args),
{
    let project_name = match &args.project {
        Some(p) => p,
        None => return Err(missing("project")),
    };
    let i = match lookup_project(projects, project_name.as_str()) {
        Ok(i) => i,
        Err(m) => return Err(m),
    };
    let pattern: Option<&str> = match &args.pattern {
        Some(p) => Some(p.as_str()),
        None => None,
    };
    Ok(projects[i].1.memory.list_text(project_name.as_str(), pattern))
}

pub open spec fn search_memories_spec(ps: Seq<(String, ProjectData)>, args: ToolArgs) -> Result<
    Seq<char>,
    Seq<char>,
> {
    match args.project {
        None => Err(missing_text("project"@)),
        Some(p) => match args.query {
            None => Err(missing_text("query"@)),
            Some(q) => if !has_key(ps, p@) {
                Err(project_not_found_text(p@))
            } else {
                Ok(search_text(project_named(ps, p@).memory.entries@, p@, q@))
            },
        },
    }
}

/// A project's memories whose key or value contains a query, in key order.
pub fn search_memories(projects: &Vec<(String, ProjectData)>, args: &ToolArgs) -> (r: Result<
    String,
    String,
>)
    ensures
        result_view(r) == search_memories_spec(projects@, *args),
{
    let project_name = match &args.project {
        Some(p) => p,
        None => return Err(missing("project")),
    };
    let query = match &args.query {
        Some(q) => q,
        None => return Err(missing("query")),
    };
    let i = match lookup_project(projects, project_name.as_str()) {
        Ok(i) => i,
        Err(m) => return Err(m),
    };
    Ok(projects[i].1.memory.search_text(project_name.as_str(), query.as_str()))
}

pub open spec fn memory_deleted_text(k: Seq<char>, p: Seq<char>) -> Seq<char> {
    "Memory deleted: key="@ + quoted(k) + " for project "@ + quoted(p)
}

/// What `delete_memory` promises of the index before and after, and of its result.
pub open spec fn delete_memory_post(
    old: Seq<(String, ProjectData)>,
    new: Seq<(String, ProjectData)>,
    args: ToolArgs,
    r: Result<Seq<char>, Seq<char>>,
) -> bool {
    match (args.project, args.key) {
        (None, _) => r == Err::<Seq<char>, Seq<char>>(missing_text("project"@))
            && new == old,
        (Some(p), None) => r == Err::<Seq<char>, Seq<char>>(missing_text("key"@))
            && new == old,
        (Some(p), Some(k)) => if !has_key(old, p@) {
            r == Err::<Seq<char>, Seq<char>>(project_not_found_text(p@))
                && new == old
        } else {
            let i = index_of_key(old, p@);
            let m = memories_at(old, i);
            if has_key(m, k@) {
                &&& r == Ok::<Seq<char>, Seq<char>>(memory_deleted_text(k@, p@))
                &&& only_memory_changed(old, new, i)
                &&& memories_at(new, i) == m.remove(index_of_key(m, k@))
            } else {
                &&& r == Err::<Seq<char>, Seq<char>>(key_not_found_text(k@))
                &&& new == old
            }
        },
    }
}

/// Deletes the memory stored under a key of a project.
pub fn delete_memory(projects: &mut Vec<(String, ProjectData)>, args: &ToolArgs) -> (r: Result<
    String,
    String,
>)
    requires
        index_wf(old(projects)@),
    ensures
        index_wf(final(projects)@),
        delete_memory_post(old(projects)@, final(projects)@, *args, result_view(r)),
{
    let project_name = match &args.project {
        Some(p) => p,
        None => return Err(missing("project")),
    };
    let key = match &args.key {
        Some(k) => k,
        None => return Err(missing("key")),
    };
    let i = match lookup_project(projects, project_name.as_str()) {
        Ok(i) => i,
        Err(m) => return Err(m),
    };
    if projects[i].1.memory.get(key.as_str()).is_none() {
        let mut m = String::from_str("Memory key ");
        append_quoted(&mut m, key.as_str());
        m.append(" not found");
        return Err(m);
    }
    let ghost before = projects@;
    let mut data = take_project(projects, i);
    assert(before[i as int].1.memory.wf());
    data.1.memory.delete(key.as_str());
    proof {
        lemma_put_back(before, i as int, data);
    }
    projects.insert(i, data);
    let mut msg = String::from_str("Memory deleted: key=");
    append_quoted(&mut msg, key.as_str());
    msg.append(" for project ");
    append_quoted(&mut msg, project_name.as_str());
    Ok(msg)
}

pub open spec fn not_confirmed_text() -> Seq<char> {
    "Deletion not confirmed. Set 'confirm' to true to proceed."@
}

/// What `clear_memories` promises of the index before and after, and of its result.
pub open spec fn clear_memories_post(
    old: Seq<(String, ProjectData)>,
    new: Seq<(String, ProjectData)>,
    args: ToolArgs,
    r: Result<Seq<char>, Seq<char>>,
) -> bool {
    match args.project {
        None => r == Err::<Seq<char>, Seq<char>>(missing_text("project"@))
            && new == old,
        Some(p) => if args.confirm != Some(true) {
            r == Err::<Seq<char>, Seq<char>>(not_confirmed_text())
                && new == old
        } else if !has_key(old, p@) {
            r == Err::<Seq<char>, Seq<char>>(project_not_found_text(p@))
                && new == old
        } else {
            let i = index_of_key(old, p@);
            let m = memories_at(old, i);
            let kept = retained(m, opt_view(args.pattern));
            &&& only_memory_changed(old, new, i)
            &&& memories_at(new, i) == kept
            &&& r == Ok::<Seq<char>, Seq<char>>(
                cleared_text(p@, opt_view(args.pattern), (m.len() - kept.len()) as nat),
            )
        },
    }
}

/// Clears a project's memories, or those whose key matches a pattern; only
/// when the request confirms it.
pub fn clear_memories(projects: &mut Vec<(String, ProjectData)>, args: &ToolArgs) -> (r: Result<
    String,
    String,
>)
    requires
        index_wf(old(projects)@),
    ensures
        index_wf(final(projects)@),
        clear_memories_post(old(projects)@, final(projects)@, *args, result_view(r)),
{
    let project_name = match &args.project {
        Some(p) => p,
        None => return Err(missing("project")),
    };
    let confirm = match args.confirm {
        Some(c) => c,
        None => false,
    };
    if !confirm {
        return Err(String::from_str("Deletion not confirmed. Set 'confirm' to true to proceed."));
    }
    let i = match lookup_project(projects, project_name.as_str()) {
        Ok(i) => i,
        Err(m) => return Err(m),
    };
    let pattern: Option<&str> = match &args.pattern {
        Some(p) => Some(p.as_str()),
        None => None,
    };
    let ghost before = projects@;
    let mut data = take_project(projects, i);
    assert(before[i as int].1.memory.wf());
    let count = data.1.memory.clear(pattern);
    proof {
        lemma_put_back(before, i as int, data);
    }
    projects.insert(i, data);
    let word = if count == 1 {
        "memory"
    } else {
        "memories"
    };
    let digits = crate::text::decimal_string(count);
    let mut msg = match pattern {
        Some(p) => {
            let mut m = String::from_str("Cleared ");
            m.append(digits.as_str());
            m.append(" ");
            m.append(word);
            m.append(" matching pattern ");
            append_quoted(&mut m, p);
            m
        },
        None => {
            let mut m = String::from_str("Cleared all ");
            m.append(digits.as_str());
            m.append(" ");
            m.append(word);
            m
        },
    };
    msg.append(" for project ");
    append_quoted(&mut msg, project_name.as_str());
    Ok(msg)
}

/// The prompt that helps an assistant write a project's context files.
pub const AUTHORING_PROMPT: &'static str = r#"# Jumble authoring prompt

Use this prompt with an AI assistant to create Jumble context files for a project or workspace.

## Full prompt

```
Create jumble context for this project.

Read the AUTHORING.md guide at https://github.com/velvet-tiger/jumble/blob/main/AUTHORING.md, then examine this project's structure to create:

1. `.jumble/project.toml` (required)
   - Extract name, description, language from manifest files
   - Identify build/test/lint commands
   - Map 3–5 architectural concepts to their files
   - Note upstream/downstream project relationships

2. `.jumble/conventions.toml`
   - Capture coding patterns to follow (look at existing code)
   - Document gotchas and non-obvious behaviors
   - Check for constitution.md, CONTRIBUTING.md, or similar guides

3. `.jumble/docs.toml`
   - Index the docs/ directory if it exists
   - Write one-line summaries that help find the right doc

Focus on what helps an AI understand this codebase quickly. Don't over-document:
- 3–5 concepts
- 5–7 conventions/gotchas
- Index only human-written docs, not generated API docs
```

## Minimal prompt

```
Create jumble context for this project following the guide at https://github.com/velvet-tiger/jumble/blob/main/AUTHORING.md
```

## Workspace-level usage

For monorepos or multi-project workspaces, you can ask the AI to:

- Create `.jumble/workspace.toml` at the workspace root with:
  - Workspace name and description
  - Cross-project conventions (coding standards, tooling)
  - Common gotchas that span multiple projects
- Then, for each important project, create `.jumble/project.toml` with:
  - Project metadata and commands
  - Key concepts mapped to files
  - Upstream/downstream relationships to other workspace projects

Start with the most important projects. Use `related_projects` to show how they connect.
"#;

/// The prompt for writing a project's context files.
pub fn get_jumble_authoring_prompt() -> (r: Result<String, String>)
    ensures
        result_view(r) == Ok::<Seq<char>, Seq<char>>(AUTHORING_PROMPT@),
{
    Ok(String::from_str(AUTHORING_PROMPT))
}

/// A project without concepts answers every concept query with an error
/// that lists no concept.
pub proof fn lemma_no_concepts_error(path: Seq<char>, cs: Seq<(String, Concept)>, q: Seq<char>)
    requires
        cs.len() == 0,
    ensures
        architecture_answer(path, cs, q) == Err::<Seq<char>, Seq<char>>(
            "Concept "@ + quoted(q) + " not found. Available concepts: "@,
        ),
{
    assert(keys_of(cs) =~= Seq::<Seq<char>>::empty());
    assert(join_sep(keys_of(cs), ", "@) == Seq::<char>::empty());
    assert("Concept "@ + quoted(q) + " not found. Available concepts: "@ + Seq::<char>::empty()
        =~= "Concept "@ + quoted(q) + " not found. Available concepts: "@);
}

/// The start of a project's line in the listing: its name, language and
/// description.
pub open spec fn project_line_head(e: (String, ProjectData)) -> Seq<char> {
    "- **"@ + e.0@ + "** ("@ + language_or_unknown(e.1.config.project.language) + "): "@
        + e.1.config.project.description@
}

/// The project listing holds, for every project of the index, its name,
/// language and description.
pub proof fn lemma_listing_names_each_project(ps: Seq<(String, ProjectData)>, i: int)
    requires
        0 <= i < ps.len(),
    ensures
        is_infix(list_projects_spec(ps), project_line_head(ps[i])),
    decreases ps.len(),
{
    let prev = ps.drop_last();
    let e = ps.last();
    let line_rest = "\n  Path: "@ + e.1.path@ + "\n"@;
    assert(project_list_text(ps) =~= project_list_text(prev) + project_line_head(e) + line_rest);
    if i == ps.len() - 1 {
        lemma_infix_middle(project_list_text(prev), project_line_head(e), line_rest);
    } else {
        assert(prev[i] == ps[i]);
        lemma_listing_names_each_project(prev, i);
        assert(prev.len() > 0);
        assert(list_projects_spec(prev) == project_list_text(prev));
        let needle = project_line_head(ps[i]);
        let w = choose|w: int| crate::text::occurs_at(project_list_text(prev), needle, w);
        let whole = project_list_text(prev) + (project_line_head(e) + line_rest);
        assert(whole.subrange(w, w + needle.len()) =~= project_list_text(prev).subrange(
            w,
            w + needle.len(),
        ));
        assert(crate::text::occurs_at(whole, needle, w));
        assert(project_list_text(ps) =~= whole);
    }
}

} // verus!
