use jumble::config::{Dependencies, ProjectConfig, ProjectConventions, ProjectDocs, ProjectInfo};
use jumble::config::{ProjectSkills, RelatedProjects};
use jumble::memory::MemoryStore;
use jumble::server::{
    build_project_index, parse_error, tool_kind, RpcReply, Server, ToolKind, ToolStep,
};
use jumble::setup::replace_jumble_section;
use jumble::text::decimal_string;
use jumble::tools::{list_projects, ProjectData, ToolArgs};

fn data(name: &str, path: &str) -> ProjectData {
    ProjectData {
        path: path.to_string(),
        config: ProjectConfig {
            project: ProjectInfo {
                name: name.to_string(),
                description: format!("{} project", name),
                language: None,
                version: None,
                repository: None,
            },
            commands: Vec::new(),
            entry_points: Vec::new(),
            dependencies: Dependencies::default(),
            related_projects: RelatedProjects::default(),
            api: None,
            concepts: Vec::new(),
        },
        skills: ProjectSkills::default(),
        conventions: ProjectConventions::default(),
        docs: ProjectDocs::default(),
        memory: MemoryStore::new(),
    }
}

#[test]
fn test_replace_jumble_section() {
    let content = r#"# WARP.md

## Using Jumble for Project Context

Old content here.

More old content.

## Another Section

Keep this section.
"#;
    let result = replace_jumble_section(content);
    assert!(result.contains("get_workspace_overview()"));
    assert!(!result.contains("Old content here"));
    assert!(result.contains("## Another Section"));
}

#[test]
fn replace_section_goes_before_later_heading() {
    let result = replace_jumble_section("# WARP.md\nintro\n# Later\nbody");
    let section = result.find("## Using Jumble for Project Context").unwrap();
    let later = result.find("# Later").unwrap();
    assert!(section < later);
    assert!(result.starts_with("# WARP.md\nintro\n## Using Jumble"));
    assert!(result.ends_with("\n\n\n# Later\nbody"));
}

#[test]
fn index_keeps_first_of_duplicate_names() {
    let (index, dups) = build_project_index(vec![
        data("b", "/one"),
        data("a", "/two"),
        data("b", "/three"),
    ]);
    assert_eq!(index.len(), 2);
    assert_eq!(index[0].0, "a");
    assert_eq!(index[1].0, "b");
    assert_eq!(index[1].1.path, "/one");
    assert_eq!(dups, vec!["b".to_string()]);
}

#[test]
fn reload_replaces_the_project_set() {
    let (mut server, _) = Server::new("/w".to_string(), None, vec![data("old", "/old")], None);
    assert!(list_projects(&server.projects).unwrap().contains("old"));
    server.reload_workspace_and_projects(None, vec![data("old", "/old"), data("new", "/new")]);
    let listed = list_projects(&server.projects).unwrap();
    assert!(listed.contains("**new**"));
    server.reload_workspace_and_projects(None, vec![data("new", "/new")]);
    let listed = list_projects(&server.projects).unwrap();
    assert!(!listed.contains("**old**"));
    assert!(listed.contains("**new**"));
}

#[test]
fn router_methods() {
    let (mut server, _) = Server::new("/w".to_string(), None, vec![data("p", "/p")], None);
    let args = ToolArgs::default();
    assert!(matches!(server.handle_request("initialize", None, &args), RpcReply::Initialize));
    assert!(matches!(server.handle_request("initialized", None, &args), RpcReply::Initialized));
    assert!(matches!(server.handle_request("tools/list", None, &args), RpcReply::ToolsList));
    match server.handle_request("bogus", None, &args) {
        RpcReply::Error(e) => {
            assert_eq!(e.code, -32601);
            assert_eq!(e.message, "Method not found: bogus");
        }
        _ => panic!("expected an error"),
    }
    match server.handle_request("tools/call", None, &args) {
        RpcReply::Error(e) => {
            assert_eq!(e.code, -32602);
            assert_eq!(e.message, "Missing 'name' parameter");
        }
        _ => panic!("expected an error"),
    }
    match server.handle_request("tools/call", Some("nope"), &args) {
        RpcReply::Tool(ToolStep::Reply(r)) => {
            assert!(r.is_error);
            assert_eq!(r.text, "Error: Unknown tool: nope");
        }
        _ => panic!("expected a reply"),
    }
    match server.handle_request("tools/call", Some("reload_workspace"), &args) {
        RpcReply::Tool(ToolStep::Reload) => {}
        _ => panic!("expected a reload"),
    }
    let e = parse_error("bad json");
    assert_eq!(e.code, -32700);
    assert_eq!(e.message, "Parse error: bad json");
}

#[test]
fn router_tool_calls() {
    let (mut server, _) = Server::new("/w".to_string(), None, vec![data("p", "/p")], None);
    let mut args = ToolArgs::default();
    match server.call_tool("list_projects", &args) {
        ToolStep::Reply(r) => {
            assert!(!r.is_error);
            assert_eq!(r.text, "- **p** (unknown): p project\n  Path: /p\n");
        }
        _ => panic!("expected a reply"),
    }
    args.project = Some("p".to_string());
    args.key = Some("k".to_string());
    args.value = Some("v".to_string());
    match server.call_tool("store_memory", &args) {
        ToolStep::Changed(r, project) => {
            assert!(!r.is_error);
            assert_eq!(project, "p");
        }
        _ => panic!("expected a change"),
    }
    match server.call_tool("delete_memory", &args) {
        ToolStep::Changed(_, _) => {}
        _ => panic!("expected a change"),
    }
    match server.call_tool("delete_memory", &args) {
        ToolStep::Reply(r) => {
            assert!(r.is_error);
            assert_eq!(r.text, "Error: Memory key 'k' not found");
        }
        _ => panic!("expected a reply"),
    }
    assert_eq!(tool_kind("get_docs"), Some(ToolKind::GetDocs));
    assert_eq!(tool_kind("get_doc"), None);
}

#[test]
fn decimal_text() {
    assert_eq!(decimal_string(0), "0");
    assert_eq!(decimal_string(1907), "1907");
}
