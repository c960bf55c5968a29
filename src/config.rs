//! The data model: project manifests, resources, conventions, docs and the
//! workspace manifest. Maps are vectors of `(key, value)` entries.

use vstd::prelude::*;
use crate::keyed::{check_keys_unique, keys_unique};

verus! {

/// A project manifest.
#[derive(Debug, Clone)]
pub struct ProjectConfig {
    pub project: ProjectInfo,
    pub commands: Vec<(String, String)>,
    pub entry_points: Vec<(String, String)>,
    pub dependencies: Dependencies,
    pub related_projects: RelatedProjects,
    pub api: Option<ApiInfo>,
    pub concepts: Vec<(String, Concept)>,
}

/// The identifying part of a project manifest.
#[derive(Debug, Clone)]
pub struct ProjectInfo {
    pub name: String,
    pub description: String,
    pub language: Option<String>,
    pub version: Option<String>,
    pub repository: Option<String>,
}

/// Dependencies inside and outside the workspace.
#[derive(Debug, Clone)]
pub struct Dependencies {
    pub internal: Vec<String>,
    pub external: Vec<String>,
}

/// Names of the projects this one depends on, and of those that depend on it.
#[derive(Debug, Clone)]
pub struct RelatedProjects {
    pub upstream: Vec<String>,
    pub downstream: Vec<String>,
}

/// Optional API metadata of a project.
#[derive(Debug, Clone)]
pub struct ApiInfo {
    pub openapi: Option<String>,
    pub base_url: Option<String>,
    pub endpoints: Vec<String>,
}

/// An architectural concept: the files that make it up, and a summary.
#[derive(Debug, Clone)]
pub struct Concept {
    pub files: Vec<String>,
    pub summary: String,
}

/// Metadata from the header block of a skill file.
#[derive(Debug, Clone)]
pub struct SkillFrontmatter {
    pub name: Option<String>,
    pub description: Option<String>,
    pub tags: Vec<String>,
}

/// A discovered skill.
#[derive(Debug, Clone)]
pub struct SkillInfo {
    /// Path of the skill's markdown file.
    pub path: String,
    /// Directory of a structured skill, where companion resources live;
    /// `None` for a flat skill file.
    pub skill_dir: Option<String>,
    /// The parsed header block, if the file has a valid one.
    pub frontmatter: Option<SkillFrontmatter>,
    /// The first lines of the body.
    pub preview: String,
}

/// The skills of a project, by key.
#[derive(Debug, Clone)]
pub struct ProjectSkills {
    pub skills: Vec<(String, SkillInfo)>,
}

/// Conventions and gotchas of a project, by name.
#[derive(Debug, Clone)]
pub struct ProjectConventions {
    pub conventions: Vec<(String, String)>,
    pub gotchas: Vec<(String, String)>,
}

/// The documentation index of a project, by topic.
#[derive(Debug, Clone)]
pub struct ProjectDocs {
    pub docs: Vec<(String, DocEntry)>,
}

/// One indexed document.
#[derive(Debug, Clone)]
pub struct DocEntry {
    pub path: String,
    pub summary: String,
}

/// The workspace-level manifest.
#[derive(Debug, Clone)]
pub struct WorkspaceConfig {
    pub workspace: WorkspaceInfo,
    pub conventions: Vec<(String, String)>,
    pub gotchas: Vec<(String, String)>,
}

/// Name and description of the workspace.
#[derive(Debug, Clone)]
pub struct WorkspaceInfo {
    pub name: Option<String>,
    pub description: Option<String>,
}

/// The user-level configuration file.
#[derive(Debug, Clone)]
pub struct JumbleConfig {
    pub jumble: JumbleSection,
}

/// The `[jumble]` table of the user-level configuration; it holds no option yet.
#[derive(Debug, Clone)]
pub struct JumbleSection {}

impl Default for Dependencies {
    fn default() -> (r: Self)
        ensures
            r.internal@.len() == 0,
            r.external@.len() == 0,
    {
        Dependencies { internal: Vec::new(), external: Vec::new() }
    }
}

impl Default for RelatedProjects {
    fn default() -> (r: Self)
        ensures
            r.upstream@.len() == 0,
            r.downstream@.len() == 0,
    {
        RelatedProjects { upstream: Vec::new(), downstream: Vec::new() }
    }
}

impl Default for SkillFrontmatter {
    fn default() -> (r: Self)
        ensures
            r.name is None,
            r.description is None,
            r.tags@.len() == 0,
    {
        SkillFrontmatter { name: None, description: None, tags: Vec::new() }
    }
}

impl Default for ProjectSkills {
    fn default() -> (r: Self)
        ensures
            r.skills@.len() == 0,
    {
        ProjectSkills { skills: Vec::new() }
    }
}

impl Default for ProjectConventions {
    fn default() -> (r: Self)
        ensures
            r.conventions@.len() == 0,
            r.gotchas@.len() == 0,
    {
        ProjectConventions { conventions: Vec::new(), gotchas: Vec::new() }
    }
}

impl Default for ProjectDocs {
    fn default() -> (r: Self)
        ensures
            r.docs@.len() == 0,
    {
        ProjectDocs { docs: Vec::new() }
    }
}

impl Default for WorkspaceInfo {
    fn default() -> (r: Self)
        ensures
            r.name is None,
            r.description is None,
    {
        WorkspaceInfo { name: None, description: None }
    }
}

impl Default for WorkspaceConfig {
    fn default() -> (r: Self)
        ensures
            r.workspace.name is None,
            r.workspace.description is None,
            r.conventions@.len() == 0,
            r.gotchas@.len() == 0,
    {
        WorkspaceConfig {
            workspace: WorkspaceInfo { name: None, description: None },
            conventions: Vec::new(),
            gotchas: Vec::new(),
        }
    }
}

impl Default for JumbleConfig {
    fn default() -> (r: Self) {
        JumbleConfig { jumble: JumbleSection {  } }
    }
}

impl ProjectConfig {
    /// Commands, entry points and concepts each have one entry per name.
    pub open spec fn wf(&self) -> bool {
        keys_unique(self.commands@) && keys_unique(self.entry_points@) && keys_unique(
            self.concepts@,
        )
    }

    pub fn has_unique_keys(&self) -> (r: bool)
        ensures
            r == self.wf(),
    {
        check_keys_unique(&self.commands) && check_keys_unique(&self.entry_points)
            && check_keys_unique(&self.concepts)
    }
}

impl ProjectSkills {
    /// One skill per key.
    pub open spec fn wf(&self) -> bool {
        keys_unique(self.skills@)
    }

    pub fn has_unique_keys(&self) -> (r: bool)
        ensures
            r == self.wf(),
    {
        check_keys_unique(&self.skills)
    }
}

impl ProjectConventions {
    /// One convention and one gotcha per name.
    pub open spec fn wf(&self) -> bool {
        keys_unique(self.conventions@) && keys_unique(self.gotchas@)
    }

    pub fn has_unique_keys(&self) -> (r: bool)
        ensures
            r == self.wf(),
    {
        check_keys_unique(&self.conventions) && check_keys_unique(&self.gotchas)
    }
}

impl ProjectDocs {
    /// One document per topic.
    pub open spec fn wf(&self) -> bool {
        keys_unique(self.docs@)
    }

    pub fn has_unique_keys(&self) -> (r: bool)
        ensures
            r == self.wf(),
    {
        check_keys_unique(&self.docs)
    }
}

impl WorkspaceConfig {
    /// One workspace convention and one gotcha per name.
    pub open spec fn wf(&self) -> bool {
        keys_unique(self.conventions@) && keys_unique(self.gotchas@)
    }

    pub fn has_unique_keys(&self) -> (r: bool)
        ensures
            r == self.wf(),
    {
        check_keys_unique(&self.conventions) && check_keys_unique(&self.gotchas)
    }
}

} // verus!
