//! The workspace snapshot and the request router.
//!
//! Reading files, walking directories and speaking the wire protocol are the
//! caller's part: the router decides, from a method and its arguments, what
//! the answer is, or which outside step (reading a skill, rebuilding the
//! snapshot) the answer needs first.

use vstd::prelude::*;
use crate::config::{JumbleConfig, WorkspaceConfig};
use crate::keyed::{find_key, has_key, upsert_sorted};
use crate::memory::{current_timestamp, entry_for, loaded, MemoryStore};
use crate::text::{is_infix, text_eq};
use crate::tools::{
    clear_memories, delete_memory, get_architecture, get_architecture_spec, get_commands,
    get_commands_spec, get_conventions, get_conventions_spec, get_docs, get_docs_spec,
    get_jumble_authoring_prompt, get_memory, get_memory_spec, get_project_info,
    get_project_info_spec, get_related_files, get_related_files_spec, get_skill,
    get_workspace_conventions, get_workspace_conventions_spec, get_workspace_overview,
    index_wf, language_or_unknown, store_memory_post, delete_memory_post, clear_memories_post, lemma_listing_names_each_project, project_line_head, get_skill_spec, opt_view, AUTHORING_PROMPT, list_memories, list_memories_spec, list_projects, list_projects_spec, list_skills,
    list_skills_spec, result_view, search_memories, search_memories_spec, store_memory,
    workspace_overview_text, ProjectData, SkillLocation, ToolArgs,
};

verus! {

/// Some project in `found` declares the name `q`.
pub open spec fn declares_name(found: Seq<ProjectData>, q: Seq<char>) -> bool {
    exists|i: int| 0 <= i < found.len() && (#[trigger] found[i]).config.project.name@ == q
}

/// `found[j]` is the first project found that declares the name `q`.
pub open spec fn first_declaring(found: Seq<ProjectData>, q: Seq<char>, j: int) -> bool {
    &&& 0 <= j < found.len()
    &&& found[j].config.project.name@ == q
    &&& forall|m: int| 0 <= m < j ==> (#[trigger] found[m]).config.project.name@ != q
}

/// An index entry holds the project as found: the same path, manifest,
/// skills, conventions and docs, and its memories as `from_entries` loads
/// them.
pub open spec fn same_project(d: ProjectData, f: ProjectData) -> bool {
    &&& d.path == f.path
    &&& d.config == f.config
    &&& d.skills == f.skills
    &&& d.conventions == f.conventions
    &&& d.docs == f.docs
    &&& forall|q: Seq<char>| entry_for(d.memory.entries@, q) == loaded(f.memory.entries@, q)
}

/// `ps` is the index of the projects `found`: one entry per declared name,
/// holding the first project found with that name.
pub open spec fn indexes_found(ps: Seq<(String, ProjectData)>, found: Seq<ProjectData>) -> bool {
    &&& forall|q: Seq<char>| has_key(ps, q) <==> declares_name(found, q)
    &&& forall|i: int| 0 <= i < ps.len() ==> entry_from(found, #[trigger] ps[i], found.len() as int)
}

/// The entry holds the first project among `found[..bound]` that declares
/// its name.
pub open spec fn entry_from(found: Seq<ProjectData>, e: (String, ProjectData), bound: int) -> bool {
    exists|j: int| j < bound && first_declaring(found, e.0@, j) && same_project(e.1, found[j])
}

/// Builds the project index from the projects found on disk. Each project
/// is known by its declared name; when two declare the same name the first
/// found is kept and the later one's name is reported.
pub fn build_project_index(found: Vec<ProjectData>) -> (r: (Vec<(String, ProjectData)>, Vec<String>))
    requires
        forall|i: int| 0 <= i < found@.len() ==> (#[trigger] found@[i]).maps_wf(),
    ensures
        index_wf(r.0@),
        indexes_found(r.0@, found@),
{
    let ghost all = found@;
    let mut found = found;
    let mut index: Vec<(String, ProjectData)> = Vec::new();
    let mut duplicates: Vec<String> = Vec::new();
    let total = found.len();
    let mut i: usize = 0;
    while i < total
        invariant
            total == all.len(),
            i <= total,
            found@ == all.subrange(i as int, total as int),
            forall|m: int| 0 <= m < all.len() ==> (#[trigger] all[m]).maps_wf(),
            index_wf(index@),
            forall|q: Seq<char>| has_key(index@, q) <==> declares_name(all.subrange(0, i as int), q),
            forall|x: int| 0 <= x < index@.len() ==> entry_from(all, #[trigger] index@[x], i as int),
        decreases total - i,
    {
        let taken = found.remove(0);
        assert(taken == all[i as int]);
        let ProjectData { path, config, skills, conventions, docs, memory } = taken;
        let name = config.project.name.clone();
        let ghost nm = name@;
        let ghost before = index@;
        let data = ProjectData {
            path,
            config,
            skills,
            conventions,
            docs,
            memory: MemoryStore::from_entries(memory.entries),
        };
        if find_key(&index, name.as_str()).is_some() {
            duplicates.push(name);
            proof {
                assert forall|x: int| 0 <= x < index@.len() implies entry_from(
                    all,
                    #[trigger] index@[x],
                    i + 1,
                ) by {
                    assert(entry_from(all, index@[x], i as int));
                    let j = choose|j: int|
                        j < i && first_declaring(all, index@[x].0@, j) && same_project(
                            index@[x].1,
                            all[j],
                        );
                }
            }
        } else {
            upsert_sorted(&mut index, name, data);
            proof {
                let k = choose|k: int| 0 <= k <= before.len() && index@ == before.insert(k, (
                    index@[k].0,
                    index@[k].1,
                ));
                assert(all[i as int].maps_wf());
                assert forall|j: int| 0 <= j < index@.len() implies (#[trigger] index@[j]).1.memory.wf()
                    && index@[j].1.maps_wf() by {
                    if j < k {
                        assert(index@[j] == before[j]);
                    } else if j > k {
                        assert(index@[j] == before[j - 1]);
                    }
                }
                assert forall|m: int| 0 <= m < i implies (#[trigger] all[m]).config.project.name@ != nm by {
                    let pre = all.subrange(0, i as int);
                    if all[m].config.project.name@ == nm {
                        assert(pre[m] == all[m]);
                        assert(declares_name(pre, nm));
                    }
                }
                assert(first_declaring(all, nm, i as int));
                assert(same_project(index@[k].1, all[i as int]));
                assert forall|x: int| 0 <= x < index@.len() implies entry_from(
                    all,
                    #[trigger] index@[x],
                    i + 1,
                ) by {
                    if x < k {
                        assert(index@[x] == before[x]);
                        assert(entry_from(all, before[x], i as int));
                        let j = choose|j: int|
                            j < i && first_declaring(all, before[x].0@, j) && same_project(
                                before[x].1,
                                all[j],
                            );
                    } else if x > k {
                        assert(index@[x] == before[x - 1]);
                        assert(entry_from(all, before[x - 1], i as int));
                        let j = choose|j: int|
                            j < i && first_declaring(all, before[x - 1].0@, j) && same_project(
                                before[x - 1].1,
                                all[j],
                            );
                    } else {
                        assert(index@[x].0@ == nm);
                        assert(first_declaring(all, index@[x].0@, i as int));
                    }
                }
            }
        }
        proof {
            let pre = all.subrange(0, i as int);
            let post = all.subrange(0, i + 1);
            assert forall|q: Seq<char>| has_key(index@, q) <==> declares_name(post, q) by {
                if declares_name(pre, q) {
                    let j = choose|j: int| 0 <= j < pre.len() && (#[trigger] pre[j]).config.project.name@ == q;
                    assert(post[j] == pre[j]);
                }
                if declares_name(post, q) && q != nm {
                    let j = choose|j: int| 0 <= j < post.len() && (#[trigger] post[j]).config.project.name@ == q;
                    assert(j < i);
                    assert(pre[j] == post[j]);
                }
                if q == nm {
                    assert(post[i as int].config.project.name@ == q);
                }
            }
        }
        i = i + 1;
    }
    assert(all.subrange(0, i as int) =~= all);
    (index, duplicates)
}

/// The tools the router knows.
#[derive(Debug, Clone, Copy, PartialEq, Eq)]
pub enum ToolKind {
    ReloadWorkspace,
    ListProjects,
    GetProjectInfo,
    GetCommands,
    GetArchitecture,
    GetRelatedFiles,
    ListSkills,
    GetSkill,
    GetConventions,
    GetDocs,
    GetWorkspaceOverview,
    GetWorkspaceConventions,
    GetAuthoringPrompt,
    StoreMemory,
    GetMemory,
    ListMemories,
    SearchMemories,
    DeleteMemory,
    ClearMemories,
}

pub open spec fn tool_kind_of(name: Seq<char>) -> Option<ToolKind> {
    if name == "reload_workspace"@ {
        Some(ToolKind::ReloadWorkspace)
    } else if name == "list_projects"@ {
        Some(ToolKind::ListProjects)
    } else if name == "get_project_info"@ {
        Some(ToolKind::GetProjectInfo)
    } else if name == "get_commands"@ {
        Some(ToolKind::GetCommands)
    } else if name == "get_architecture"@ {
        Some(ToolKind::GetArchitecture)
    } else if name == "get_related_files"@ {
        Some(ToolKind::GetRelatedFiles)
    } else if name == "list_skills"@ {
        Some(ToolKind::ListSkills)
    } else if name == "get_skill"@ {
        Some(ToolKind::GetSkill)
    } else if name == "get_conventions"@ {
        Some(ToolKind::GetConventions)
    } else if name == "get_docs"@ {
        Some(ToolKind::GetDocs)
    } else if name == "get_workspace_overview"@ {
        Some(ToolKind::GetWorkspaceOverview)
    } else if name == "get_workspace_conventions"@ {
        Some(ToolKind::GetWorkspaceConventions)
    } else if name == "get_jumble_authoring_prompt"@ {
        Some(ToolKind::GetAuthoringPrompt)
    } else if name == "store_memory"@ {
        Some(ToolKind::StoreMemory)
    } else if name == "get_memory"@ {
        Some(ToolKind::GetMemory)
    } else if name == "list_memories"@ {
        Some(ToolKind::ListMemories)
    } else if name == "search_memories"@ {
        Some(ToolKind::SearchMemories)
    } else if name == "delete_memory"@ {
        Some(ToolKind::DeleteMemory)
    } else if name == "clear_memories"@ {
        Some(ToolKind::ClearMemories)
    } else {
        None
    }
}

/// The tool a name selects.
pub fn tool_kind(name: &str) -> (r: Option<ToolKind>)
    ensures
        r == tool_kind_of(name@),
{
    if text_eq(name, "reload_workspace") {
        Some(ToolKind::ReloadWorkspace)
    } else if text_eq(name, "list_projects") {
        Some(ToolKind::ListProjects)
    } else if text_eq(name, "get_project_info") {
        Some(ToolKind::GetProjectInfo)
    } else if text_eq(name, "get_commands") {
        Some(ToolKind::GetCommands)
    } else if text_eq(name, "get_architecture") {
        Some(ToolKind::GetArchitecture)
    } else if text_eq(name, "get_related_files") {
        Some(ToolKind::GetRelatedFiles)
    } else if text_eq(name, "list_skills") {
        Some(ToolKind::ListSkills)
    } else if text_eq(name, "get_skill") {
        Some(ToolKind::GetSkill)
    } else if text_eq(name, "get_conventions") {
        Some(ToolKind::GetConventions)
    } else if text_eq(name, "get_docs") {
        Some(ToolKind::GetDocs)
    } else if text_eq(name, "get_workspace_overview") {
        Some(ToolKind::GetWorkspaceOverview)
    } else if text_eq(name, "get_workspace_conventions") {
        Some(ToolKind::GetWorkspaceConventions)
    } else if text_eq(name, "get_jumble_authoring_prompt") {
        Some(ToolKind::GetAuthoringPrompt)
    } else if text_eq(name, "store_memory") {
        Some(ToolKind::StoreMemory)
    } else if text_eq(name, "get_memory") {
        Some(ToolKind::GetMemory)
    } else if text_eq(name, "list_memories") {
        Some(ToolKind::ListMemories)
    } else if text_eq(name, "search_memories") {
        Some(ToolKind::SearchMemories)
    } else if text_eq(name, "delete_memory") {
        Some(ToolKind::DeleteMemory)
    } else if text_eq(name, "clear_memories") {
        Some(ToolKind::ClearMemories)
    } else {
        None
    }
}

/// A tool's answer as the client sees it: the text, and whether it reports an
/// error.
#[derive(Debug, Clone)]
pub struct ToolResponse {
    pub text: String,
    pub is_error: bool,
}

/// An error result is shown prefixed with `Error: ` and flagged.
pub open spec fn response_of(r: Result<Seq<char>, Seq<char>>) -> (Seq<char>, bool) {
    match r {
        Ok(t) => (t, false),
        Err(m) => ("Error: "@ + m, true),
    }
}

pub open spec fn response_view(r: ToolResponse) -> (Seq<char>, bool) {
    (r.text@, r.is_error)
}

/// Wraps a tool's result for the client.
pub fn tool_response(r: Result<String, String>) -> (out: ToolResponse)
    ensures
        response_view(out) == response_of(result_view(r)),
{
    match r {
        Ok(t) => ToolResponse { text: t, is_error: false },
        Err(m) => {
            let mut text = String::from_str("Error: ");
            text.append(m.as_str());
            ToolResponse { text, is_error: true }
        },
    }
}

/// What a tool call comes to.
#[derive(Debug)]
pub enum ToolStep {
    /// The answer; nothing changed.
    Reply(ToolResponse),
    /// The answer, after a change to the memory store of the named project,
    /// which is to be saved before the answer is sent.
    Changed(ToolResponse, String),
    /// The skill's file is to be read and shown, with its companions.
    ReadSkill(SkillLocation),
    /// The snapshot is to be rebuilt from disk.
    Reload,
}

/// A protocol-level error.
#[derive(Debug, Clone)]
pub struct RpcError {
    pub code: i32,
    pub message: String,
}

pub const PARSE_ERROR: i32 = -32700;
pub const METHOD_NOT_FOUND: i32 = -32601;
pub const INVALID_PARAMS: i32 = -32602;

/// What a request comes to.
#[derive(Debug)]
pub enum RpcReply {
    /// The server's capabilities.
    Initialize,
    /// An empty acknowledgement.
    Initialized,
    /// The schema of every tool.
    ToolsList,
    /// A tool call.
    Tool(ToolStep),
    /// A protocol-level error.
    Error(RpcError),
}

/// The error for an input line that is not a request.
pub fn parse_error(detail: &str) -> (r: RpcError)
    ensures
        r.code == PARSE_ERROR,
        r.message@ == "Parse error: "@ + detail@,
{
    let mut message = String::from_str("Parse error: ");
    message.append(detail);
    RpcError { code: PARSE_ERROR, message }
}

/// The answer of a tool that reads and changes nothing, if `kind` is one.
pub open spec fn read_only_answer(
    kind: ToolKind,
    root: Seq<char>,
    ws: Option<WorkspaceConfig>,
    ps: Seq<(String, ProjectData)>,
    args: ToolArgs,
) -> Option<Result<Seq<char>, Seq<char>>> {
    match kind {
        ToolKind::ListProjects => Some(Ok(list_projects_spec(ps))),
        ToolKind::GetProjectInfo => Some(get_project_info_spec(ps, args)),
        ToolKind::GetCommands => Some(get_commands_spec(ps, args)),
        ToolKind::GetArchitecture => Some(get_architecture_spec(ps, args)),
        ToolKind::GetRelatedFiles => Some(get_related_files_spec(ps, args)),
        ToolKind::ListSkills => Some(list_skills_spec(ps, args)),
        ToolKind::GetConventions => Some(get_conventions_spec(ps, args)),
        ToolKind::GetDocs => Some(get_docs_spec(ps, args)),
        ToolKind::GetWorkspaceOverview => Some(Ok(workspace_overview_text(root, ws, ps))),
        ToolKind::GetWorkspaceConventions => Some(get_workspace_conventions_spec(ws, args)),
        ToolKind::GetMemory => Some(get_memory_spec(ps, args)),
        ToolKind::ListMemories => Some(list_memories_spec(ps, args)),
        ToolKind::SearchMemories => Some(search_memories_spec(ps, args)),
        ToolKind::GetAuthoringPrompt => Some(Ok(AUTHORING_PROMPT@)),
        _ => None,
    }
}

/// The step answers a tool's result: a success as a change to save, with
/// the result's text; an error as an error reply.
pub open spec fn step_answers(r: ToolStep, res: Result<Seq<char>, Seq<char>>, args: ToolArgs) -> bool {
    match res {
        Ok(t) => match r {
            ToolStep::Changed(resp, p) => response_view(resp) == (t, false) && args.project == Some(p),
            _ => false,
        },
        Err(m) => match r {
            ToolStep::Reply(resp) => response_view(resp) == response_of(Err(m)),
            _ => false,
        },
    }
}

/// What running the tool `name` on `args` does to the server and answers.
pub open spec fn call_tool_post(old: Server, new: Server, name: Seq<char>, args: ToolArgs, r: ToolStep) -> bool {
    &&& new.root == old.root
    &&& new.workspace == old.workspace
    &&& match tool_kind_of(name) {
        None => new.projects@ == old.projects@ && match r {
            ToolStep::Reply(resp) => response_view(resp) == response_of(Err("Unknown tool: "@ + name)),
            _ => false,
        },
        Some(ToolKind::ReloadWorkspace) => new.projects@ == old.projects@ && r is Reload,
        Some(ToolKind::GetSkill) => new.projects@ == old.projects@ && match get_skill_spec(
            old.projects@,
            args,
        ) {
            Ok(loc) => match r {
                ToolStep::ReadSkill(l) => (l.path@, opt_view(l.skill_dir)) == loc,
                _ => false,
            },
            Err(m) => match r {
                ToolStep::Reply(resp) => response_view(resp) == response_of(Err(m)),
                _ => false,
            },
        },
        Some(ToolKind::StoreMemory) => exists|ts: String, res: Result<Seq<char>, Seq<char>>|
            store_memory_post(old.projects@, new.projects@, args, ts, res) && step_answers(
                r,
                res,
                args,
            ),
        Some(ToolKind::DeleteMemory) => exists|res: Result<Seq<char>, Seq<char>>|
            delete_memory_post(old.projects@, new.projects@, args, res) && step_answers(r, res, args),
        Some(ToolKind::ClearMemories) => exists|res: Result<Seq<char>, Seq<char>>|
            clear_memories_post(old.projects@, new.projects@, args, res) && step_answers(r, res, args),
        Some(k) => match read_only_answer(k, old.root@, old.workspace, old.projects@, args) {
            Some(a) => new.projects@ == old.projects@ && match r {
                ToolStep::Reply(resp) => response_view(resp) == response_of(a),
                _ => false,
            },
            None => false,
        },
    }
}

/// The server's state: the workspace root and the current snapshot.
pub struct Server {
    pub root: String,
    pub workspace: Option<WorkspaceConfig>,
    pub projects: Vec<(String, ProjectData)>,
    /// The user-level configuration, if it could be read.
    pub jumble_config: Option<JumbleConfig>,
}

impl Server {
    pub open spec fn wf(&self) -> bool {
        &&& index_wf(self.projects@)
        &&& self.workspace matches Some(w) ==> w.wf()
    }

    /// A server over a workspace, with the snapshot built from what was
    /// found there. Also returns the names of projects left out because an
    /// earlier project declared the same name.
    pub fn new(
        root: String,
        workspace: Option<WorkspaceConfig>,
        found: Vec<ProjectData>,
        jumble_config: Option<JumbleConfig>,
    ) -> (r: (Server, Vec<String>))
        requires
            workspace matches Some(w) ==> w.wf(),
            forall|i: int| 0 <= i < found@.len() ==> (#[trigger] found@[i]).maps_wf(),
        ensures
            r.0.wf(),
            r.0.root == root,
            r.0.workspace == workspace,
            indexes_found(r.0.projects@, found@),
    {
        let (projects, duplicates) = build_project_index(found);
        (Server { root, workspace, projects, jumble_config }, duplicates)
    }

    /// Replaces the whole snapshot with one built afresh from disk; returns
    /// the names of projects left out as duplicates.
    pub fn reload_workspace_and_projects(
        &mut self,
        workspace: Option<WorkspaceConfig>,
        found: Vec<ProjectData>,
    ) -> (r: Vec<String>)
        requires
            workspace matches Some(w) ==> w.wf(),
            forall|i: int| 0 <= i < found@.len() ==> (#[trigger] found@[i]).maps_wf(),
        ensures
            final(self).wf(),
            final(self).root == old(self).root,
            final(self).workspace == workspace,
            indexes_found(final(self).projects@, found@),
    {
        let (projects, duplicates) = build_project_index(found);
        self.workspace = workspace;
        self.projects = projects;
        duplicates
    }

    /// Runs the tool `name` on `args`.
    pub fn call_tool(&mut self, name: &str, args: &ToolArgs) -> (r: ToolStep)
        requires
            old(self).wf(),
        ensures
            final(self).wf(),
            call_tool_post(*old(self), *final(self), name@, *args, r),
    {
        let kind = match tool_kind(name) {
            Some(k) => k,
            None => {
                let mut m = String::from_str("Unknown tool: ");
                m.append(name);
                return ToolStep::Reply(tool_response(Err(m)));
            },
        };
        match kind {
            ToolKind::ReloadWorkspace => ToolStep::Reload,
            ToolKind::ListProjects => ToolStep::Reply(tool_response(list_projects(&self.projects))),
            ToolKind::GetProjectInfo => ToolStep::Reply(
                tool_response(get_project_info(&self.projects, args)),
            ),
            ToolKind::GetCommands => ToolStep::Reply(tool_response(get_commands(&self.projects, args))),
            ToolKind::GetArchitecture => ToolStep::Reply(
                tool_response(get_architecture(&self.projects, args)),
            ),
            ToolKind::GetRelatedFiles => ToolStep::Reply(
                tool_response(get_related_files(&self.projects, args)),
            ),
            ToolKind::ListSkills => ToolStep::Reply(tool_response(list_skills(&self.projects, args))),
            ToolKind::GetSkill => match get_skill(&self.projects, args) {
                Ok(loc) => ToolStep::ReadSkill(loc),
                Err(m) => ToolStep::Reply(tool_response(Err(m))),
            },
            ToolKind::GetConventions => ToolStep::Reply(
                tool_response(get_conventions(&self.projects, args)),
            ),
            ToolKind::GetDocs => ToolStep::Reply(tool_response(get_docs(&self.projects, args))),
            ToolKind::GetWorkspaceOverview => ToolStep::Reply(
                tool_response(
                    get_workspace_overview(self.root.as_str(), &self.workspace, &self.projects),
                ),
            ),
            ToolKind::GetWorkspaceConventions => ToolStep::Reply(
                tool_response(get_workspace_conventions(&self.workspace, args)),
            ),
            ToolKind::GetAuthoringPrompt => ToolStep::Reply(
                tool_response(get_jumble_authoring_prompt()),
            ),
            ToolKind::StoreMemory => {
                let timestamp = current_timestamp();
                let ghost ts = timestamp;
                let r = store_memory(&mut self.projects, args, timestamp);
                let ghost res = result_view(r);
                let step = Self::changed(r, args);
                assert(store_memory_post(old(self).projects@, self.projects@, *args, ts, res));
                assert(step_answers(step, res, *args));
                step
            },
            ToolKind::GetMemory => ToolStep::Reply(tool_response(get_memory(&self.projects, args))),
            ToolKind::ListMemories => ToolStep::Reply(
                tool_response(list_memories(&self.projects, args)),
            ),
            ToolKind::SearchMemories => ToolStep::Reply(
                tool_response(search_memories(&self.projects, args)),
            ),
            ToolKind::DeleteMemory => {
                let r = delete_memory(&mut self.projects, args);
                let ghost res = result_view(r);
                let step = Self::changed(r, args);
                assert(step_answers(step, res, *args));
                step
            },
            ToolKind::ClearMemories => {
                let r = clear_memories(&mut self.projects, args);
                let ghost res = result_view(r);
                let step = Self::changed(r, args);
                assert(step_answers(step, res, *args));
                step
            },
        }
    }

    /// The step after a tool that may have changed a memory store: on
    /// success the project's store is to be saved.
    fn changed(r: Result<String, String>, args: &ToolArgs) -> (s: ToolStep)
        requires
            r is Ok ==> args.project is Some,
        ensures
            match r {
                Ok(t) => match s {
                    ToolStep::Changed(resp, p) => resp.text@ == t@ && !resp.is_error && args.project
                        == Some(p),
                    _ => false,
                },
                Err(m) => match s {
                    ToolStep::Reply(resp) => response_view(resp) == response_of(Err(m@)),
                    _ => false,
                },
            },
    {
        match r {
            Ok(t) => match &args.project {
                Some(p) => ToolStep::Changed(tool_response(Ok(t)), p.clone()),
                None => ToolStep::Reply(tool_response(Ok(t))),
            },
            Err(m) => ToolStep::Reply(tool_response(Err(m))),
        }
    }

    /// Routes a request by its method; for a tool call, `tool_name` is the
    /// `name` parameter when it is text.
    pub fn handle_request(&mut self, method: &str, tool_name: Option<&str>, args: &ToolArgs) -> (r:
        RpcReply)
        requires
            old(self).wf(),
        ensures
            final(self).wf(),
            method@ == "initialize"@ ==> r is Initialize && *final(self) == *old(self),
            method@ == "initialized"@ ==> r is Initialized && *final(self) == *old(self),
            method@ == "tools/list"@ ==> r is ToolsList && *final(self) == *old(self),
            method@ == "tools/call"@ && tool_name is None ==> *final(self) == *old(self) && match r {
                RpcReply::Error(e) => e.code == INVALID_PARAMS && e.message@
                    == "Missing 'name' parameter"@,
                _ => false,
            },
            method@ == "tools/call"@ && tool_name is Some ==> match r {
                RpcReply::Tool(step) => call_tool_post(
                    *old(self),
                    *final(self),
                    tool_name->0@,
                    *args,
                    step,
                ),
                _ => false,
            },
            method@ != "initialize"@ && method@ != "initialized"@ && method@ != "tools/list"@
                && method@ != "tools/call"@ ==> *final(self) == *old(self)
                && match r {
                RpcReply::Error(e) => e.code == METHOD_NOT_FOUND && e.message@ == "Method not found: "@
                    + method@,
                _ => false,
            },
    {
        proof {
            reveal_strlit("initialize");
            reveal_strlit("initialized");
            reveal_strlit("tools/list");
            reveal_strlit("tools/call");
            assert("initialize"@.len() != "initialized"@.len());
            assert("initialize"@[0] != "tools/list"@[0]);
            assert("initialize"@[0] != "tools/call"@[0]);
            assert("initialized"@.len() != "tools/list"@.len());
            assert("initialized"@.len() != "tools/call"@.len());
            assert("tools/list"@[6] != "tools/call"@[6]);
        }
        if text_eq(method, "initialize") {
            RpcReply::Initialize
        } else if text_eq(method, "initialized") {
            RpcReply::Initialized
        } else if text_eq(method, "tools/list") {
            RpcReply::ToolsList
        } else if text_eq(method, "tools/call") {
            match tool_name {
                Some(n) => RpcReply::Tool(self.call_tool(n, args)),
                None => RpcReply::Error(
                    RpcError {
                        code: INVALID_PARAMS,
                        message: String::from_str("Missing 'name' parameter"),
                    },
                ),
            }
        } else {
            let mut message = String::from_str("Method not found: ");
            message.append(method);
            RpcReply::Error(RpcError { code: METHOD_NOT_FOUND, message })
        }
    }
}

/// After a rebuild from the projects found on disk, the project listing
/// shows every project found first under its name, with the language and
/// description of its manifest; a name no project declares any more is gone
/// from the index.
pub proof fn lemma_rebuilt_listing(ps: Seq<(String, ProjectData)>, found: Seq<ProjectData>, j: int, gone: Seq<char>)
    requires
        indexes_found(ps, found),
        first_declaring(found, found[j].config.project.name@, j),
        !declares_name(found, gone),
    ensures
        is_infix(
            list_projects_spec(ps),
            "- **"@ + found[j].config.project.name@ + "** ("@ + language_or_unknown(
                found[j].config.project.language,
            ) + "): "@ + found[j].config.project.description@,
        ),
        !has_key(ps, gone),
{
    let q = found[j].config.project.name@;
    assert(declares_name(found, q));
    let x = choose|x: int| 0 <= x < ps.len() && ps[x].0@ == q;
    assert(entry_from(found, ps[x], found.len() as int));
    let j2 = choose|j2: int|
        j2 < found.len() && first_declaring(found, ps[x].0@, j2) && same_project(ps[x].1, found[j2]);
    assert(j2 == j) by {
        if j2 < j {
            assert(found[j2].config.project.name@ == q);
        } else if j < j2 {
            assert(found[j].config.project.name@ == q);
        }
    }
    lemma_listing_names_each_project(ps, x);
    assert(project_line_head(ps[x]) =~= "- **"@ + q + "** ("@ + language_or_unknown(
        found[j].config.project.language,
    ) + "): "@ + found[j].config.project.description@);
}

/// Two rebuilds from the same projects found agree: the same names, and for
/// each name the same path, manifest, skills, conventions, docs and memories.
pub proof fn lemma_rebuild_idempotent(
    a: Seq<(String, ProjectData)>,
    b: Seq<(String, ProjectData)>,
    found: Seq<ProjectData>,
    ia: int,
)
    requires
        indexes_found(a, found),
        indexes_found(b, found),
        0 <= ia < a.len(),
    ensures
        has_key(b, a[ia].0@),
        forall|ib: int|
            0 <= ib < b.len() && b[ib].0@ == a[ia].0@ ==> {
                let da = a[ia].1;
                let db = b[ib].1;
                &&& da.path == db.path
                &&& da.config == db.config
                &&& da.skills == db.skills
                &&& da.conventions == db.conventions
                &&& da.docs == db.docs
                &&& forall|k: Seq<char>|
                    entry_for(da.memory.entries@, k) == entry_for(db.memory.entries@, k)
            },
{
    let q = a[ia].0@;
    assert(has_key(a, q));
    assert(entry_from(found, a[ia], found.len() as int));
    let ja = choose|j: int|
        j < found.len() && first_declaring(found, a[ia].0@, j) && same_project(a[ia].1, found[j]);
    assert forall|ib: int| 0 <= ib < b.len() && b[ib].0@ == q implies {
        let da = a[ia].1;
        let db = b[ib].1;
        &&& da.path == db.path
        &&& da.config == db.config
        &&& da.skills == db.skills
        &&& da.conventions == db.conventions
        &&& da.docs == db.docs
        &&& forall|k: Seq<char>| entry_for(da.memory.entries@, k) == entry_for(db.memory.entries@, k)
    } by {
        assert(entry_from(found, b[ib], found.len() as int));
        let jb = choose|j: int|
            j < found.len() && first_declaring(found, b[ib].0@, j) && same_project(b[ib].1, found[j]);
        assert(ja == jb) by {
            if ja < jb {
                assert(found[ja].config.project.name@ == q);
            } else if jb < ja {
                assert(found[jb].config.project.name@ == q);
            }
        }
    }
}

} // verus!
