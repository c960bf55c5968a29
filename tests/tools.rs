use jumble::config::{
    Concept, Dependencies, DocEntry, ProjectConfig, ProjectConventions, ProjectDocs, ProjectInfo,
    ProjectSkills, RelatedProjects, SkillFrontmatter, SkillInfo, WorkspaceConfig, WorkspaceInfo,
};
use jumble::memory::MemoryStore;
use jumble::tools::{
    format_skill_with_companions, get_architecture, get_commands, get_conventions, get_docs,
    get_jumble_authoring_prompt, get_project_info, get_related_files, get_skill,
    get_workspace_conventions, get_workspace_overview, list_projects, list_skills, render_skill,
    select_concept, CompanionFile, ProjectData, ToolArgs,
};
use jumble::text::trim_text;

fn create_test_project() -> (String, ProjectData) {
    let config = ProjectConfig {
        project: ProjectInfo {
            name: "test-project".to_string(),
            description: "A test project".to_string(),
            language: Some("rust".to_string()),
            version: Some("1.0.0".to_string()),
            repository: None,
        },
        commands: vec![
            ("build".to_string(), "cargo build".to_string()),
            ("test".to_string(), "cargo test".to_string()),
        ],
        entry_points: vec![("main".to_string(), "src/main.rs".to_string())],
        dependencies: Dependencies {
            internal: vec!["shared".to_string()],
            external: vec!["serde".to_string()],
        },
        related_projects: RelatedProjects {
            upstream: vec!["core".to_string()],
            downstream: vec![],
        },
        api: None,
        concepts: vec![(
            "authentication".to_string(),
            Concept {
                files: vec!["src/auth.rs".to_string()],
                summary: "JWT auth".to_string(),
            },
        )],
    };
    let conventions = ProjectConventions {
        conventions: vec![("naming".to_string(), "Use snake_case".to_string())],
        gotchas: vec![("async".to_string(), "Avoid blocking".to_string())],
    };
    let docs = ProjectDocs {
        docs: vec![(
            "readme".to_string(),
            DocEntry {
                path: "README.md".to_string(),
                summary: "Project readme".to_string(),
            },
        )],
    };
    (
        "test-project".to_string(),
        ProjectData {
            path: "/tmp/test-project".to_string(),
            config,
            skills: ProjectSkills::default(),
            conventions,
            docs,
            memory: MemoryStore::new(),
        },
    )
}

fn create_test_projects() -> Vec<(String, ProjectData)> {
    vec![create_test_project()]
}

fn args_for(project: &str) -> ToolArgs {
    let mut a = ToolArgs::default();
    a.project = Some(project.to_string());
    a
}

#[test]
fn test_list_projects_empty() {
    let projects: Vec<(String, ProjectData)> = Vec::new();
    let result = list_projects(&projects).unwrap();
    assert!(result.contains("No projects found"));
}

#[test]
fn test_list_projects() {
    let projects = create_test_projects();
    let result = list_projects(&projects).unwrap();
    assert!(result.contains("test-project"));
    assert!(result.contains("rust"));
    assert!(result.contains("A test project"));
}

#[test]
fn test_list_projects_exact_line() {
    let projects = create_test_projects();
    assert_eq!(
        list_projects(&projects).unwrap(),
        "- **test-project** (rust): A test project\n  Path: /tmp/test-project\n"
    );
}

#[test]
fn test_get_project_info_not_found() {
    let projects = create_test_projects();
    let result = get_project_info(&projects, &args_for("nonexistent"));
    assert!(result.is_err());
    assert!(result.unwrap_err().contains("not found"));
}

#[test]
fn test_get_project_info_missing_project() {
    let projects = create_test_projects();
    let result = get_project_info(&projects, &ToolArgs::default());
    assert_eq!(result, Err("Missing 'project' argument".to_string()));
}

#[test]
fn test_get_project_info_full() {
    let projects = create_test_projects();
    let result = get_project_info(&projects, &args_for("test-project")).unwrap();
    assert!(result.contains("test-project"));
    assert!(result.contains("A test project"));
    assert!(result.contains("rust"));
    assert!(result.contains("1.0.0"));
}

#[test]
fn test_get_project_info_commands_field() {
    let projects = create_test_projects();
    let mut args = args_for("test-project");
    args.field = Some("commands".to_string());
    let result = get_project_info(&projects, &args).unwrap();
    assert!(result.contains("build"));
    assert!(result.contains("cargo build"));
}

#[test]
fn test_get_project_info_unknown_field() {
    let projects = create_test_projects();
    let mut args = args_for("test-project");
    args.field = Some("owners".to_string());
    assert_eq!(
        get_project_info(&projects, &args),
        Err("Unknown field: owners".to_string())
    );
}

#[test]
fn test_get_commands() {
    let projects = create_test_projects();
    let result = get_commands(&projects, &args_for("test-project")).unwrap();
    assert!(result.contains("build"));
    assert!(result.contains("test"));
}

#[test]
fn test_get_commands_specific() {
    let projects = create_test_projects();
    let mut args = args_for("test-project");
    args.command_type = Some("build".to_string());
    let result = get_commands(&projects, &args).unwrap();
    assert!(result.contains("cargo build"));
    assert_eq!(result, "build: cargo build");
}

#[test]
fn test_get_commands_not_found() {
    let projects = create_test_projects();
    let mut args = args_for("test-project");
    args.command_type = Some("deploy".to_string());
    let result = get_commands(&projects, &args);
    assert!(result.is_err());
    assert_eq!(
        result,
        Err("Command 'deploy' not found for project 'test-project'".to_string())
    );
}

#[test]
fn test_get_architecture() {
    let projects = create_test_projects();
    let mut args = args_for("test-project");
    args.concept = Some("authentication".to_string());
    let result = get_architecture(&projects, &args).unwrap();
    assert!(result.contains("authentication"));
    assert!(result.contains("JWT auth"));
    assert!(result.contains("src/auth.rs"));
}

#[test]
fn test_get_architecture_case_insensitive() {
    let projects = create_test_projects();
    let mut args = args_for("test-project");
    args.concept = Some("AUTHENTICATION".to_string());
    let result = get_architecture(&projects, &args).unwrap();
    assert!(result.contains("JWT auth"));
}

#[test]
fn test_get_architecture_partial_match() {
    let projects = create_test_projects();
    let mut args = args_for("test-project");
    args.concept = Some("auth".to_string());
    let result = get_architecture(&projects, &args).unwrap();
    assert!(result.contains("JWT auth"));
}

#[test]
fn test_get_architecture_missing_concept() {
    let projects = create_test_projects();
    let result = get_architecture(&projects, &args_for("test-project"));
    assert_eq!(result, Err("Missing 'concept' argument".to_string()));
}

#[test]
fn test_get_architecture_no_concepts_lists_none() {
    let (name, mut data) = create_test_project();
    data.config.concepts = Vec::new();
    let projects = vec![(name, data)];
    let mut args = args_for("test-project");
    args.concept = Some("auth".to_string());
    assert_eq!(
        get_architecture(&projects, &args),
        Err("Concept 'auth' not found. Available concepts: ".to_string())
    );
}

#[test]
fn test_get_architecture_match_order() {
    let (name, mut data) = create_test_project();
    data.config.concepts = vec![
        (
            "storage".to_string(),
            Concept {
                files: vec!["src/db.rs".to_string()],
                summary: "Keeps the Auth tokens".to_string(),
            },
        ),
        (
            "Auth".to_string(),
            Concept {
                files: vec!["src/auth.rs".to_string()],
                summary: "Login".to_string(),
            },
        ),
        (
            "auth".to_string(),
            Concept {
                files: vec!["src/auth2.rs".to_string()],
                summary: "Exact".to_string(),
            },
        ),
    ];
    let projects = vec![(name, data)];
    let mut args = args_for("test-project");
    args.concept = Some("auth".to_string());
    let exact = get_architecture(&projects, &args).unwrap();
    assert!(exact.starts_with("## auth\n\nExact"));
    args.concept = Some("AUTH".to_string());
    let folded = get_architecture(&projects, &args).unwrap();
    assert!(folded.starts_with("## Auth\n\nLogin"));
    args.concept = Some("token".to_string());
    let partial = get_architecture(&projects, &args).unwrap();
    assert!(partial.starts_with("## storage\n"));
    args.concept = Some("zzz".to_string());
    assert_eq!(
        get_architecture(&projects, &args),
        Err("Concept 'zzz' not found. Available concepts: storage, Auth, auth".to_string())
    );
}

#[test]
fn test_get_related_files() {
    let projects = create_test_projects();
    let mut args = args_for("test-project");
    args.query = Some("auth".to_string());
    let result = get_related_files(&projects, &args).unwrap();
    assert!(result.contains("authentication"));
    assert!(result.contains("src/auth.rs"));
}

#[test]
fn test_get_related_files_no_match() {
    let projects = create_test_projects();
    let mut args = args_for("test-project");
    args.query = Some("billing".to_string());
    assert_eq!(
        get_related_files(&projects, &args),
        Err("No concepts matching 'billing' found".to_string())
    );
}

#[test]
fn test_get_conventions() {
    let projects = create_test_projects();
    let result = get_conventions(&projects, &args_for("test-project")).unwrap();
    assert!(result.contains("naming"));
    assert!(result.contains("async"));
}

#[test]
fn test_get_conventions_filtered() {
    let projects = create_test_projects();
    let mut args = args_for("test-project");
    args.category = Some("gotchas".to_string());
    let result = get_conventions(&projects, &args).unwrap();
    assert!(result.contains("async"));
    assert!(!result.contains("naming"));
}

#[test]
fn test_get_conventions_unknown_category() {
    let projects = create_test_projects();
    let mut args = args_for("test-project");
    args.category = Some("style".to_string());
    assert_eq!(
        get_conventions(&projects, &args),
        Err("Unknown category 'style'. Use 'conventions' or 'gotchas'.".to_string())
    );
}

#[test]
fn test_get_docs() {
    let projects = create_test_projects();
    let result = get_docs(&projects, &args_for("test-project")).unwrap();
    assert!(result.contains("readme"));
    assert!(result.contains("Project readme"));
}

#[test]
fn test_get_docs_specific() {
    let projects = create_test_projects();
    let mut args = args_for("test-project");
    args.topic = Some("readme".to_string());
    let result = get_docs(&projects, &args).unwrap();
    assert!(result.contains("README.md"));
    assert_eq!(
        result,
        "## readme\n**Summary:** Project readme\n**Path:** /tmp/test-project/README.md"
    );
}

#[test]
fn test_get_workspace_overview_no_workspace() {
    let projects = create_test_projects();
    let result = get_workspace_overview("/workspace", &None, &projects).unwrap();
    assert!(result.contains("Workspace Overview"));
    assert!(result.contains("test-project"));
}

#[test]
fn test_get_workspace_overview_with_workspace() {
    let projects = create_test_projects();
    let workspace = Some(WorkspaceConfig {
        workspace: WorkspaceInfo {
            name: Some("My Workspace".to_string()),
            description: Some("A test workspace".to_string()),
        },
        conventions: Vec::new(),
        gotchas: Vec::new(),
    });
    let result = get_workspace_overview("/workspace", &workspace, &projects).unwrap();
    assert!(result.contains("My Workspace"));
    assert!(result.contains("A test workspace"));
}

#[test]
fn test_get_workspace_overview_dependencies() {
    let projects = create_test_projects();
    let result = get_workspace_overview("/workspace", &None, &projects).unwrap();
    assert!(result.contains("**test-project**:\n  ← depends on: core\n"));
    let empty: Vec<(String, ProjectData)> = Vec::new();
    assert_eq!(
        get_workspace_overview("/w", &None, &empty).unwrap(),
        "# Workspace Overview\n\n**Root:** /w\n\nNo projects found.\n"
    );
}

#[test]
fn test_get_workspace_conventions_none() {
    let result = get_workspace_conventions(&None, &ToolArgs::default());
    assert!(result.is_err());
}

#[test]
fn test_get_workspace_conventions_named() {
    let workspace = Some(WorkspaceConfig {
        workspace: WorkspaceInfo {
            name: Some("Acme".to_string()),
            description: None,
        },
        conventions: vec![("style".to_string(), "rustfmt".to_string())],
        gotchas: Vec::new(),
    });
    assert_eq!(
        get_workspace_conventions(&workspace, &ToolArgs::default()).unwrap(),
        "# Acme Conventions\n\n## style\nrustfmt\n\n"
    );
}

fn skill(path: &str, dir: Option<&str>, description: Option<&str>, preview: &str) -> SkillInfo {
    SkillInfo {
        path: path.to_string(),
        skill_dir: dir.map(|d| d.to_string()),
        frontmatter: description.map(|d| SkillFrontmatter {
            name: None,
            description: Some(d.to_string()),
            tags: Vec::new(),
        }),
        preview: preview.to_string(),
    }
}

#[test]
fn test_list_skills_descriptions() {
    let (name, mut data) = create_test_project();
    data.skills.skills = vec![
        ("a".to_string(), skill("/s/a.md", None, Some("Does A"), "# A")),
        ("b".to_string(), skill("/s/b.md", None, None, "  # Title B  \nmore")),
    ];
    let projects = vec![(name, data)];
    assert_eq!(
        list_skills(&projects, &args_for("test-project")).unwrap(),
        "Available skills for 'test-project':\n\n- a: Does A\n- b: # Title B\n\nUse get_skill(project, topic) to retrieve a specific skill."
    );
}

#[test]
fn test_get_skill_locations_and_errors() {
    let (name, mut data) = create_test_project();
    let mut args = args_for("test-project");
    args.topic = Some("x".to_string());
    let empty = vec![(name.clone(), data.clone())];
    assert_eq!(
        get_skill(&empty, &args).err(),
        Some("No skills found for 'test-project'".to_string())
    );
    data.skills.skills = vec![(
        "deploy".to_string(),
        skill("/s/deploy/SKILL.md", Some("/s/deploy"), None, ""),
    )];
    let projects = vec![(name, data)];
    assert_eq!(
        get_skill(&projects, &args).err(),
        Some("Skill 'x' not found. Available: deploy".to_string())
    );
    args.topic = Some("deploy".to_string());
    let loc = get_skill(&projects, &args).unwrap();
    assert_eq!(loc.path, "/s/deploy/SKILL.md");
    assert_eq!(loc.skill_dir, Some("/s/deploy".to_string()));
}

#[test]
fn test_format_skill_with_companions() {
    let skill_content = "# My Skill\n\nThis is a test skill.";
    let companions = vec![
        CompanionFile {
            relative_path: "scripts".to_string(),
            is_dir: true,
        },
        CompanionFile {
            relative_path: "scripts/helper.sh".to_string(),
            is_dir: false,
        },
        CompanionFile {
            relative_path: "references".to_string(),
            is_dir: true,
        },
        CompanionFile {
            relative_path: "references/guide.md".to_string(),
            is_dir: false,
        },
    ];
    let result = format_skill_with_companions(skill_content, &companions);
    assert!(result.contains("# My Skill"));
    assert!(result.contains("This is a test skill."));
    assert!(result.contains("## Companion Resources"));
    assert!(result.contains("### scripts"));
    assert!(result.contains("`helper.sh`"));
    assert!(result.contains("### references"));
    assert!(result.contains("`guide.md`"));
}

#[test]
fn test_render_skill_without_companions() {
    assert_eq!(render_skill("# Body", &Vec::new()), "# Body");
    let stray = vec![CompanionFile {
        relative_path: "other/x.txt".to_string(),
        is_dir: false,
    }];
    assert!(render_skill("# Body", &stray).ends_with("- `other/x.txt`\n"));
}

#[test]
fn test_authoring_prompt() {
    let prompt = get_jumble_authoring_prompt().unwrap();
    assert!(prompt.starts_with("# Jumble authoring prompt"));
    assert!(prompt.contains(".jumble/project.toml"));
}

#[test]
fn unknown_category_is_an_error_even_without_conventions() {
    let (name, mut data) = create_test_project();
    data.conventions = ProjectConventions::default();
    let projects = vec![(name, data)];
    let mut args = args_for("test-project");
    args.category = Some("style".to_string());
    assert_eq!(
        get_conventions(&projects, &args),
        Err("Unknown category 'style'. Use 'conventions' or 'gotchas'.".to_string())
    );
    args.category = None;
    assert!(get_conventions(&projects, &args).unwrap().starts_with("No conventions found"));
    let workspace = Some(WorkspaceConfig {
        workspace: WorkspaceInfo { name: None, description: None },
        conventions: Vec::new(),
        gotchas: Vec::new(),
    });
    let mut wargs = ToolArgs::default();
    wargs.category = Some("style".to_string());
    assert_eq!(
        get_workspace_conventions(&workspace, &wargs),
        Err("Unknown category 'style'. Use 'conventions' or 'gotchas'.".to_string())
    );
}

fn concept(summary: &str) -> Concept {
    Concept { files: Vec::new(), summary: summary.to_string() }
}

#[test]
fn select_concept_over_folded_texts() {
    let concepts = vec![
        ("Storage".to_string(), concept("keeps TOKENS")),
        ("AUTH".to_string(), concept("login")),
        ("auth".to_string(), concept("exact")),
    ];
    let fnames = vec!["storage".to_string(), "auth".to_string(), "auth".to_string()];
    let fsums = vec!["keeps tokens".to_string(), "login".to_string(), "exact".to_string()];
    assert_eq!(select_concept(&concepts, &fnames, &fsums, "auth", "auth"), Some(2));
    assert_eq!(select_concept(&concepts, &fnames, &fsums, "Auth", "auth"), Some(1));
    assert_eq!(select_concept(&concepts, &fnames, &fsums, "Tok", "tok"), Some(0));
    assert_eq!(select_concept(&concepts, &fnames, &fsums, "zzz", "zzz"), None);
}

#[test]
fn trim_removes_unicode_whitespace() {
    assert_eq!(trim_text("\u{3000} \t# Title\u{a0}\n"), "# Title");
    assert_eq!(trim_text(" \u{2003} "), "");
    assert_eq!(trim_text("a b"), "a b");
}

#[test]
fn repeated_names_are_detected() {
    let (_, mut data) = create_test_project();
    assert!(data.has_unique_keys());
    data.conventions.gotchas.push(("async".to_string(), "again".to_string()));
    assert!(!data.has_unique_keys());
    assert!(!data.conventions.has_unique_keys());
}
