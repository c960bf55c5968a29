use jumble::config::{ProjectSkills, SkillFrontmatter, SkillInfo};
use jumble::skills::{
    claim_skill, discover_skills, extract_skill_frontmatter_and_preview, is_skill_file_name,
    structured_skill_key, SkillSources,
};
use jumble::text::build_preview;

fn info(path: &str) -> SkillInfo {
    SkillInfo {
        path: path.to_string(),
        skill_dir: None,
        frontmatter: None,
        preview: String::new(),
    }
}

fn yaml_field(block: &str, field: &str) -> Option<String> {
    let v: serde_yaml::Value = serde_yaml::from_str(block).ok()?;
    v.get(field).and_then(|x| x.as_str()).map(|s| s.to_string())
}

#[test]
fn test_extract_frontmatter_and_preview_with_valid_frontmatter() {
    let content = "---\nname: bootstrap\ndescription: Test description\ntags: [a, b]\n---\n# Title\nBody line 1\nBody line 2\n";
    let (frontmatter, preview) = extract_skill_frontmatter_and_preview(content);
    let fm = frontmatter.expect("expected some frontmatter");
    assert_eq!(yaml_field(&fm, "name").as_deref(), Some("bootstrap"));
    assert_eq!(yaml_field(&fm, "description").as_deref(), Some("Test description"));
    let v: serde_yaml::Value = serde_yaml::from_str(&fm).unwrap();
    let tags: Vec<&str> = v["tags"].as_sequence().unwrap().iter().map(|t| t.as_str().unwrap()).collect();
    assert_eq!(tags, vec!["a", "b"]);
    assert!(preview.starts_with("# Title"));
    assert!(preview.contains("Body line 1"));
}

#[test]
fn test_extract_frontmatter_and_preview_without_frontmatter() {
    let content = "# Title\nLine 1\nLine 2\n";
    let (frontmatter, preview) = extract_skill_frontmatter_and_preview(content);
    assert!(frontmatter.is_none());
    assert!(preview.starts_with("# Title"));
    assert!(preview.contains("Line 1"));
}

#[test]
fn test_extract_frontmatter_and_preview_with_unclosed_frontmatter() {
    let content = "---\nname: broken\n# Title\nLine 1\n";
    let (frontmatter, preview) = extract_skill_frontmatter_and_preview(content);
    assert!(frontmatter.is_none());
    assert!(preview.starts_with("---"));
    assert!(preview.contains("name: broken"));
    assert_eq!(preview, "---\nname: broken\n# Title\nLine 1");
}

#[test]
fn preview_keeps_sixteen_lines_and_drops_carriage_returns() {
    let text: String = (1..=20).map(|i| format!("l{}\r\n", i)).collect();
    let expected: Vec<String> = (1..=16).map(|i| format!("l{}", i)).collect();
    assert_eq!(build_preview(&text), expected.join("\n"));
    assert_eq!(build_preview(""), "");
}

#[test]
fn skill_file_names() {
    assert!(is_skill_file_name("SKILL.md"));
    assert!(is_skill_file_name("skill.MD"));
    assert!(!is_skill_file_name("SKILLS.md"));
    assert!(!is_skill_file_name("README.md"));
}

#[test]
fn structured_keys() {
    let named = Some(SkillFrontmatter {
        name: Some("explaining-code".to_string()),
        description: None,
        tags: Vec::new(),
    });
    assert_eq!(structured_skill_key(&named, Some("dir")), "explaining-code");
    let unnamed = Some(SkillFrontmatter {
        name: Some(String::new()),
        description: Some("Diagramming helper".to_string()),
        tags: Vec::new(),
    });
    assert_eq!(structured_skill_key(&unnamed, Some("diagramming")), "diagramming");
    assert_eq!(structured_skill_key(&None, None), "skill");
}

#[test]
fn local_skill_wins_over_global() {
    let sources = SkillSources {
        local_flat: vec![("local-first".to_string(), info("/proj/.jumble/skills/local-first.md"))],
        global_flat: vec![
            ("global-skill".to_string(), info("/home/.jumble/skills/global-skill.md")),
            ("local-first".to_string(), info("/home/.jumble/skills/local-first.md")),
        ],
        structured: vec![(
            vec![("global-skill".to_string(), info("/proj/.agent/skills/g/SKILL.md"))],
            vec![("".to_string(), info("/home/.agent/skills/x/SKILL.md"))],
        )],
    };
    let skills = discover_skills(sources);
    assert_eq!(skills.skills.len(), 2);
    assert_eq!(skills.skills[0].0, "local-first");
    assert_eq!(skills.skills[0].1.path, "/proj/.jumble/skills/local-first.md");
    assert_eq!(skills.skills[1].0, "global-skill");
    assert_eq!(skills.skills[1].1.path, "/home/.jumble/skills/global-skill.md");
}

#[test]
fn claim_refuses_taken_and_empty_keys() {
    let mut s = ProjectSkills::default();
    assert!(claim_skill(&mut s, "a".to_string(), info("/1")));
    assert!(!claim_skill(&mut s, "a".to_string(), info("/2")));
    assert!(!claim_skill(&mut s, String::new(), info("/3")));
    assert_eq!(s.skills.len(), 1);
    assert_eq!(s.skills[0].1.path, "/1");
}
