use jumble::memory::{current_timestamp, epoch_offset, MemoryEntry, MemoryStore};
use jumble::config::{ProjectConfig, ProjectConventions, ProjectDocs, ProjectInfo, ProjectSkills};
use jumble::config::{Dependencies, RelatedProjects};
use jumble::tools::{
    clear_memories, delete_memory, get_memory, list_memories, search_memories, store_memory,
    ProjectData, ToolArgs,
};

fn project() -> Vec<(String, ProjectData)> {
    let config = ProjectConfig {
        project: ProjectInfo {
            name: "p".to_string(),
            description: "d".to_string(),
            language: None,
            version: None,
            repository: None,
        },
        commands: Vec::new(),
        entry_points: Vec::new(),
        dependencies: Dependencies::default(),
        related_projects: RelatedProjects::default(),
        api: None,
        concepts: Vec::new(),
    };
    vec![(
        "p".to_string(),
        ProjectData {
            path: "/p".to_string(),
            config,
            skills: ProjectSkills::default(),
            conventions: ProjectConventions::default(),
            docs: ProjectDocs::default(),
            memory: MemoryStore::new(),
        },
    )]
}

fn args(key: Option<&str>, value: Option<&str>, source: Option<&str>) -> ToolArgs {
    let mut a = ToolArgs::default();
    a.project = Some("p".to_string());
    a.key = key.map(|s| s.to_string());
    a.value = value.map(|s| s.to_string());
    a.source = source.map(|s| s.to_string());
    a
}

#[test]
fn test_timestamp_format() {
    let ts = current_timestamp();
    assert!(ts.contains('T'));
    assert!(ts.contains('Z') || ts.contains('+'));
}

#[test]
fn store_twice_keeps_one_entry_with_second_value() {
    let mut ps = project();
    store_memory(&mut ps, &args(Some("k"), Some("v1"), None), "2024-01-01T00:00:00+00:00".to_string())
        .unwrap();
    store_memory(&mut ps, &args(Some("k"), Some("v2"), None), "2024-01-02T00:00:00+00:00".to_string())
        .unwrap();
    let entries = &ps[0].1.memory.entries;
    assert_eq!(entries.len(), 1);
    assert_eq!(entries[0].0, "k");
    assert_eq!(entries[0].1.value, "v2");
    assert_eq!(entries[0].1.timestamp, "2024-01-02T00:00:00+00:00");
}

#[test]
fn store_then_get_shows_value_and_source() {
    let mut ps = project();
    let stored = store_memory(&mut ps, &args(Some("k"), Some("v"), Some("agent")), "t0".to_string());
    assert_eq!(stored, Ok("Memory stored: key='k' for project 'p'".to_string()));
    let text = get_memory(&ps, &args(Some("k"), None, None)).unwrap();
    assert_eq!(
        text,
        "# Memory: k\n\n**Value:** v\n**Timestamp:** t0\n**Source:** agent\n"
    );
}

#[test]
fn store_requires_value() {
    let mut ps = project();
    assert_eq!(
        store_memory(&mut ps, &args(Some("k"), None, None), "t".to_string()),
        Err("Missing 'value' argument".to_string())
    );
    assert!(ps[0].1.memory.entries.is_empty());
}

#[test]
fn get_missing_key_is_not_found() {
    let ps = project();
    assert_eq!(
        get_memory(&ps, &args(Some("nope"), None, None)),
        Err("Memory key 'nope' not found".to_string())
    );
}

#[test]
fn delete_missing_key_is_not_found_and_changes_nothing() {
    let mut ps = project();
    store_memory(&mut ps, &args(Some("a"), Some("1"), None), "t".to_string()).unwrap();
    assert_eq!(
        delete_memory(&mut ps, &args(Some("zz"), None, None)),
        Err("Memory key 'zz' not found".to_string())
    );
    assert_eq!(ps[0].1.memory.entries.len(), 1);
    assert_eq!(
        delete_memory(&mut ps, &args(Some("a"), None, None)),
        Ok("Memory deleted: key='a' for project 'p'".to_string())
    );
    assert!(ps[0].1.memory.entries.is_empty());
}

#[test]
fn clear_without_confirm_changes_nothing() {
    let mut ps = project();
    store_memory(&mut ps, &args(Some("a"), Some("1"), None), "t".to_string()).unwrap();
    let mut a = args(None, None, None);
    assert_eq!(
        clear_memories(&mut ps, &a),
        Err("Deletion not confirmed. Set 'confirm' to true to proceed.".to_string())
    );
    a.confirm = Some(false);
    assert!(clear_memories(&mut ps, &a).is_err());
    assert_eq!(ps[0].1.memory.entries.len(), 1);
}

#[test]
fn clear_with_pattern_counts_removed() {
    let mut ps = project();
    for k in ["alpha", "Beta", "alphabet"] {
        store_memory(&mut ps, &args(Some(k), Some("x"), None), "t".to_string()).unwrap();
    }
    let mut a = args(None, None, None);
    a.confirm = Some(true);
    a.pattern = Some("ALPHA".to_string());
    assert_eq!(
        clear_memories(&mut ps, &a),
        Ok("Cleared 2 memories matching pattern 'ALPHA' for project 'p'".to_string())
    );
    assert_eq!(ps[0].1.memory.entries.len(), 1);
    a.pattern = None;
    assert_eq!(
        clear_memories(&mut ps, &a),
        Ok("Cleared all 1 memory for project 'p'".to_string())
    );
}

#[test]
fn list_is_sorted_and_filtered() {
    let mut ps = project();
    for (k, v) in [("zeta", "last"), ("alpha", "first"), ("Mid", "middle")] {
        store_memory(&mut ps, &args(Some(k), Some(v), None), "t".to_string()).unwrap();
    }
    let all = list_memories(&ps, &args(None, None, None)).unwrap();
    let a = all.find("**Mid**").unwrap();
    let b = all.find("**alpha**").unwrap();
    let c = all.find("**zeta**").unwrap();
    assert!(a < b && b < c);
    let mut f = args(None, None, None);
    f.pattern = Some("MID".to_string());
    assert_eq!(
        list_memories(&ps, &f).unwrap(),
        "# Memories for 'p'\n\nFiltered by: MID\n\n- **Mid**\n  Timestamp: t\n  Preview: middle\n"
    );
    f.pattern = Some("nothing".to_string());
    assert_eq!(
        list_memories(&ps, &f).unwrap(),
        "No memories matching pattern 'nothing' for project 'p'"
    );
}

#[test]
fn list_preview_truncates_long_values() {
    let mut ps = project();
    let long = "x".repeat(120);
    store_memory(&mut ps, &args(Some("k"), Some(&long), None), "t".to_string()).unwrap();
    let text = list_memories(&ps, &args(None, None, None)).unwrap();
    let expected = format!("  Preview: {}...\n", "x".repeat(100));
    assert!(text.ends_with(&expected));
}

#[test]
fn search_matches_key_or_value() {
    let mut ps = project();
    store_memory(&mut ps, &args(Some("db-host"), Some("localhost"), None), "t".to_string()).unwrap();
    store_memory(&mut ps, &args(Some("style"), Some("Use TABS"), None), "t".to_string()).unwrap();
    let mut q = args(None, None, None);
    q.query = Some("tabs".to_string());
    let text = search_memories(&ps, &q).unwrap();
    assert!(text.starts_with("# Search results for 'tabs' in 'p'\n\nFound 1 match(es)\n\n## style\n"));
    q.query = Some("none-such".to_string());
    assert_eq!(
        search_memories(&ps, &q).unwrap(),
        "No memories matching query 'none-such' for project 'p'"
    );
}

#[test]
fn empty_store_messages() {
    let ps = project();
    assert_eq!(
        list_memories(&ps, &args(None, None, None)).unwrap(),
        "No memories stored for project 'p'"
    );
}

#[test]
fn store_level_operations() {
    let mut s = MemoryStore::new();
    s.store(
        "b".to_string(),
        MemoryEntry { value: "2".to_string(), timestamp: "t".to_string(), source: None },
    );
    s.store(
        "a".to_string(),
        MemoryEntry { value: "1".to_string(), timestamp: "t".to_string(), source: None },
    );
    assert_eq!(s.entries[0].0, "a");
    assert_eq!(s.get("b").unwrap().value, "2");
    assert!(s.delete("a"));
    assert!(!s.delete("a"));
    let rebuilt = MemoryStore::from_entries(vec![
        ("k".to_string(), MemoryEntry { value: "old".to_string(), timestamp: "t".to_string(), source: None }),
        ("k".to_string(), MemoryEntry { value: "new".to_string(), timestamp: "t".to_string(), source: None }),
    ]);
    assert_eq!(rebuilt.entries.len(), 1);
    assert_eq!(rebuilt.entries[0].1.value, "new");
}

#[test]
fn timestamp_never_goes_back_on_overwrite() {
    let mut ps = project();
    store_memory(&mut ps, &args(Some("k"), Some("v1"), None), "2024-05-02T10:00:00+00:00".to_string())
        .unwrap();
    store_memory(&mut ps, &args(Some("k"), Some("v2"), Some("s")), "2024-05-01T09:00:00+00:00".to_string())
        .unwrap();
    let entries = &ps[0].1.memory.entries;
    assert_eq!(entries.len(), 1);
    assert_eq!(entries[0].1.value, "v2");
    assert_eq!(entries[0].1.source, Some("s".to_string()));
    assert_eq!(entries[0].1.timestamp, "2024-05-02T10:00:00+00:00");
}

#[test]
fn epoch_offsets() {
    assert_eq!(epoch_offset(false, 5, 7), Some((5, 7)));
    assert_eq!(epoch_offset(true, 5, 0), Some((-5, 0)));
    assert_eq!(epoch_offset(true, 5, 300), Some((-6, 999_999_700)));
    assert_eq!(epoch_offset(false, u64::MAX, 0), None);
}
