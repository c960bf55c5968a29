//! Markdown renderings of the parts of a project manifest.

use vstd::prelude::*;
use crate::config::{ApiInfo, Concept, Dependencies, RelatedProjects};
use crate::text::{append_pairs, append_wrapped, pairs_text, wrap_each};

verus! {

/// One bullet line per item.
pub open spec fn bullets(items: Seq<String>) -> Seq<char> {
    wrap_each(items, "- "@, "\n"@)
}

/// A heading line followed by a bullet per item; nothing for no items.
pub open spec fn bullet_section(heading: Seq<char>, items: Seq<String>) -> Seq<char> {
    if items.len() == 0 {
        seq![]
    } else {
        heading + bullets(items)
    }
}

pub open spec fn commands_text(commands: Seq<(String, String)>) -> Seq<char> {
    if commands.len() == 0 {
        "No commands defined."@
    } else {
        pairs_text(commands, "- **"@, "**: `"@, "`\n"@)
    }
}

pub open spec fn entry_points_text(entry_points: Seq<(String, String)>) -> Seq<char> {
    if entry_points.len() == 0 {
        "No entry points defined."@
    } else {
        pairs_text(entry_points, "- **"@, "**: "@, "\n"@)
    }
}

pub open spec fn dependencies_text(internal: Seq<String>, external: Seq<String>) -> Seq<char> {
    if internal.len() == 0 && external.len() == 0 {
        "No dependencies defined."@
    } else {
        bullet_section("**Internal dependencies:**\n"@, internal) + bullet_section(
            "**External dependencies:**\n"@,
            external,
        )
    }
}

pub open spec fn related_projects_text(upstream: Seq<String>, downstream: Seq<String>) -> Seq<char> {
    if upstream.len() == 0 && downstream.len() == 0 {
        "No related projects defined."@
    } else {
        bullet_section("**Upstream (this project depends on):**\n"@, upstream) + bullet_section(
            "**Downstream (depends on this project):**\n"@,
            downstream,
        )
    }
}

/// `label value` and a newline when the value is present.
pub open spec fn labelled_line(label: Seq<char>, value: Option<String>) -> Seq<char> {
    match value {
        Some(v) => label + v@ + "\n"@,
        None => seq![],
    }
}

pub open spec fn api_text(api: Option<ApiInfo>) -> Seq<char> {
    match api {
        None => "No API information defined."@,
        Some(a) => if a.openapi is None && a.base_url is None && a.endpoints@.len() == 0 {
            "API section defined but empty."@
        } else {
            labelled_line("**OpenAPI spec:** "@, a.openapi) + labelled_line(
                "**Base URL:** "@,
                a.base_url,
            ) + bullet_section("**Endpoints:**\n"@, a.endpoints@)
        },
    }
}

pub open spec fn concept_text(project_path: Seq<char>, name: Seq<char>, concept: Concept) -> Seq<char> {
    "## "@ + name + "\n\n"@ + concept.summary@ + "\n\n**Files:**\n"@ + wrap_each(
        concept.files@,
        "- "@ + project_path + "/"@,
        "\n"@,
    )
}

fn append_bullet_section(out: &mut String, heading: &str, items: &Vec<String>)
    ensures
        final(out)@ == old(out)@ + bullet_section(heading@, items@),
{
    if items.len() > 0 {
        out.append(heading);
        append_wrapped(out, items, "- ", "\n");
    }
}

fn append_labelled_line(out: &mut String, label: &str, value: &Option<String>)
    ensures
        final(out)@ == old(out)@ + labelled_line(label@, *value),
{
    match value {
        Some(v) => {
            out.append(label);
            out.append(v.as_str());
            out.append("\n");
        },
        None => {},
    }
}

/// The commands as a bullet list.
pub fn format_commands(commands: &Vec<(String, String)>) -> (r: String)
    ensures
        r@ == commands_text(commands@),
{
    if commands.len() == 0 {
        return String::from_str("No commands defined.");
    }
    let mut output = String::new();
    append_pairs(&mut output, commands, "- **", "**: `", "`\n");
    output
}

/// The entry points as a bullet list.
pub fn format_entry_points(entry_points: &Vec<(String, String)>) -> (r: String)
    ensures
        r@ == entry_points_text(entry_points@),
{
    if entry_points.len() == 0 {
        return String::from_str("No entry points defined.");
    }
    let mut output = String::new();
    append_pairs(&mut output, entry_points, "- **", "**: ", "\n");
    output
}

/// Internal and external dependencies, each under its heading.
pub fn format_dependencies(deps: &Dependencies) -> (r: String)
    ensures
        r@ == dependencies_text(deps.internal@, deps.external@),
{
    if deps.internal.len() == 0 && deps.external.len() == 0 {
        return String::from_str("No dependencies defined.");
    }
    let mut output = String::new();
    append_bullet_section(&mut output, "**Internal dependencies:**\n", &deps.internal);
    append_bullet_section(&mut output, "**External dependencies:**\n", &deps.external);
    output
}

/// Upstream and downstream projects, each under its heading.
pub fn format_related_projects(related: &RelatedProjects) -> (r: String)
    ensures
        r@ == related_projects_text(related.upstream@, related.downstream@),
{
    if related.upstream.len() == 0 && related.downstream.len() == 0 {
        return String::from_str("No related projects defined.");
    }
    let mut output = String::new();
    append_bullet_section(
        &mut output,
        "**Upstream (this project depends on):**\n",
        &related.upstream,
    );
    append_bullet_section(
        &mut output,
        "**Downstream (depends on this project):**\n",
        &related.downstream,
    );
    output
}

/// The API metadata, field by field.
pub fn format_api(api: &Option<ApiInfo>) -> (r: String)
    ensures
        r@ == api_text(*api),
{
    match api {
        Some(api_info) => {
            if api_info.openapi.is_none() && api_info.base_url.is_none()
                && api_info.endpoints.len() == 0 {
                return String::from_str("API section defined but empty.");
            }
            let mut output = String::new();
            append_labelled_line(&mut output, "**OpenAPI spec:** ", &api_info.openapi);
            append_labelled_line(&mut output, "**Base URL:** ", &api_info.base_url);
            append_bullet_section(&mut output, "**Endpoints:**\n", &api_info.endpoints);
            output
        },
        None => String::from_str("No API information defined."),
    }
}

/// A concept: its name as a heading, its summary, and its files under the
/// project's path.
pub fn format_concept(project_path: &str, name: &str, concept: &Concept) -> (r: String)
    ensures
        r@ == concept_text(project_path@, name@, *concept),
{
    let mut output = String::from_str("## ");
    output.append(name);
    output.append("\n\n");
    output.append(concept.summary.as_str());
    output.append("\n\n**Files:**\n");
    let mut prefix = String::from_str("- ");
    prefix.append(project_path);
    prefix.append("/");
    append_wrapped(&mut output, &concept.files, prefix.as_str(), "\n");
    output
}

} // verus!
