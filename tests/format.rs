use jumble::config::{ApiInfo, Concept, Dependencies, RelatedProjects};
use jumble::format::{
    format_api, format_commands, format_concept, format_dependencies, format_entry_points,
    format_related_projects,
};

#[test]
fn test_format_commands_empty() {
    let commands: Vec<(String, String)> = Vec::new();
    assert_eq!(format_commands(&commands), "No commands defined.");
}

#[test]
fn test_format_commands() {
    let commands = vec![("build".to_string(), "cargo build".to_string())];
    let result = format_commands(&commands);
    assert!(result.contains("**build**"));
    assert!(result.contains("`cargo build`"));
}

#[test]
fn test_format_commands_exact_lines() {
    let commands = vec![
        ("build".to_string(), "cargo build".to_string()),
        ("test".to_string(), "cargo test".to_string()),
    ];
    assert_eq!(
        format_commands(&commands),
        "- **build**: `cargo build`\n- **test**: `cargo test`\n"
    );
}

#[test]
fn test_format_entry_points_empty() {
    let entry_points: Vec<(String, String)> = Vec::new();
    assert_eq!(format_entry_points(&entry_points), "No entry points defined.");
}

#[test]
fn test_format_entry_points() {
    let entry_points = vec![("main".to_string(), "src/main.rs".to_string())];
    let result = format_entry_points(&entry_points);
    assert!(result.contains("**main**"));
    assert!(result.contains("src/main.rs"));
}

#[test]
fn test_format_dependencies_empty() {
    let deps = Dependencies::default();
    assert_eq!(format_dependencies(&deps), "No dependencies defined.");
}

#[test]
fn test_format_dependencies_internal_only() {
    let deps = Dependencies {
        internal: vec!["shared-lib".to_string()],
        external: vec![],
    };
    let result = format_dependencies(&deps);
    assert!(result.contains("Internal dependencies"));
    assert!(result.contains("shared-lib"));
    assert!(!result.contains("External dependencies"));
}

#[test]
fn test_format_dependencies_both() {
    let deps = Dependencies {
        internal: vec!["core".to_string()],
        external: vec!["serde".to_string(), "tokio".to_string()],
    };
    let result = format_dependencies(&deps);
    assert!(result.contains("Internal dependencies"));
    assert!(result.contains("External dependencies"));
    assert!(result.contains("serde"));
}

#[test]
fn test_format_dependencies_exact_text() {
    let deps = Dependencies {
        internal: vec!["core".to_string()],
        external: vec!["serde".to_string()],
    };
    assert_eq!(
        format_dependencies(&deps),
        "**Internal dependencies:**\n- core\n**External dependencies:**\n- serde\n"
    );
}

#[test]
fn test_format_related_projects_empty() {
    let related = RelatedProjects::default();
    assert_eq!(format_related_projects(&related), "No related projects defined.");
}

#[test]
fn test_format_related_projects() {
    let related = RelatedProjects {
        upstream: vec!["core-lib".to_string()],
        downstream: vec!["frontend".to_string()],
    };
    let result = format_related_projects(&related);
    assert!(result.contains("Upstream"));
    assert!(result.contains("core-lib"));
    assert!(result.contains("Downstream"));
    assert!(result.contains("frontend"));
}

#[test]
fn test_format_api_none() {
    assert_eq!(format_api(&None), "No API information defined.");
}

#[test]
fn test_format_api_with_data() {
    let api = Some(ApiInfo {
        openapi: Some("api.yaml".to_string()),
        base_url: Some("/api/v1".to_string()),
        endpoints: vec!["GET /users".to_string()],
    });
    let result = format_api(&api);
    assert!(result.contains("OpenAPI spec"));
    assert!(result.contains("api.yaml"));
    assert!(result.contains("Base URL"));
    assert!(result.contains("/api/v1"));
    assert!(result.contains("Endpoints"));
}

#[test]
fn test_format_api_empty() {
    let api = Some(ApiInfo {
        openapi: None,
        base_url: None,
        endpoints: vec![],
    });
    assert_eq!(format_api(&api), "API section defined but empty.");
}

#[test]
fn test_format_concept() {
    let concept = Concept {
        files: vec!["src/auth.rs".to_string(), "src/jwt.rs".to_string()],
        summary: "Authentication module".to_string(),
    };
    let result = format_concept("/project", "authentication", &concept);
    assert!(result.contains("## authentication"));
    assert!(result.contains("Authentication module"));
    assert!(result.contains("/project/src/auth.rs"));
    assert!(result.contains("/project/src/jwt.rs"));
}

#[test]
fn test_format_concept_exact_text() {
    let concept = Concept {
        files: vec!["a.rs".to_string()],
        summary: "S".to_string(),
    };
    assert_eq!(
        format_concept("/p", "n", &concept),
        "## n\n\nS\n\n**Files:**\n- /p/a.rs\n"
    );
}
