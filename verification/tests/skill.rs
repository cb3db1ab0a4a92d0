use bellows::json::JsonValue;
use bellows::skill::{
    parse_skill, skill_name_for_file, sort_by_name, split_frontmatter, EmptySkillSet, Skill,
    SkillBundle, SkillError, SkillSet,
};

const SAMPLE: &str = "---\nname: triage\nversion: 1\n---\n\n# Triage\n\nClassify the issue.\n";

#[test]
fn parse_minimal_skill() {
    let s = parse_skill("triage", SAMPLE).unwrap();
    assert_eq!(s.name, "triage");
    assert_eq!(s.frontmatter.str_member("name"), Some("triage"));
    assert_eq!(s.frontmatter.get("version").and_then(|v| v.as_u64()), Some(1));
    assert!(s.body.starts_with("# Triage"));
}

#[test]
fn missing_frontmatter_marker_is_rejected() {
    let r = parse_skill("bad", "just markdown");
    assert!(matches!(r, Err(SkillError::BadFrontmatter { .. })));
}

#[test]
fn split_reports_which_marker_is_missing() {
    match split_frontmatter("x", "no marker") {
        Err(SkillError::BadFrontmatter { file, reason }) => {
            assert_eq!(file, "x");
            assert_eq!(reason, "missing leading `---\\n` marker");
        },
        _ => panic!("expected a frontmatter error"),
    }
    match split_frontmatter("y", "---\nname: y\nno close") {
        Err(SkillError::BadFrontmatter { file, reason }) => {
            assert_eq!(file, "y");
            assert_eq!(reason, "missing closing `---` marker");
        },
        _ => panic!("expected a frontmatter error"),
    }
}

#[test]
fn split_requires_the_closing_marker_on_its_own_line() {
    let (f, b) = split_frontmatter("z", "---\na: 1\n---\n\n\nbody\n").ok().unwrap();
    assert_eq!(f, "a: 1");
    assert_eq!(b, "body\n");
    let (f, b) = split_frontmatter("z", "---\na: 1\n---\n").ok().unwrap();
    assert_eq!(f, "a: 1");
    assert_eq!(b, "");
    for bad in ["---\na: 1\n---", "---\nname: x\n---trailing"] {
        match split_frontmatter("z", bad) {
            Err(SkillError::BadFrontmatter { reason, .. }) => {
                assert_eq!(reason, "missing closing `---` marker")
            },
            _ => panic!("expected a frontmatter error for {bad:?}"),
        }
    }
}

#[test]
fn bad_yaml_is_a_yaml_error_naming_the_skill() {
    match parse_skill("broken", "---\nkey: [unclosed\n---\nbody") {
        Err(e @ SkillError::Yaml { .. }) => {
            assert!(e.text().starts_with("yaml error in `broken`: "));
        },
        _ => panic!("expected a YAML error"),
    }
    let e = parse_skill("bad", "oops").err().unwrap();
    assert_eq!(e.text(), "malformed frontmatter in `bad`: missing leading `---\\n` marker");
}

#[test]
fn markdown_files_name_their_skills() {
    assert_eq!(skill_name_for_file("triage.md").as_deref(), Some("triage"));
    assert_eq!(skill_name_for_file("a.b.md").as_deref(), Some("a.b"));
    assert_eq!(skill_name_for_file("notes.txt"), None);
    assert_eq!(skill_name_for_file(".md"), None);
    assert_eq!(skill_name_for_file("README"), None);
    assert_eq!(skill_name_for_file("x.md.bak"), None);
}

fn skill(name: &str, body: &str) -> Skill {
    Skill { name: name.to_string(), frontmatter: JsonValue::Null, body: body.to_string() }
}

#[test]
fn skills_sort_by_name_keeping_ties_in_order() {
    let mut v = vec![skill("beta", "1"), skill("alpha", "2"), skill("beta", "3"), skill("Zed", "4")];
    sort_by_name(&mut v);
    let order: Vec<(&str, &str)> = v.iter().map(|s| (s.name.as_str(), s.body.as_str())).collect();
    assert_eq!(order, vec![("Zed", "4"), ("alpha", "2"), ("beta", "1"), ("beta", "3")]);
}

#[test]
fn bundle_finds_the_first_skill_with_a_name() {
    let b = SkillBundle::from_vec(vec![skill("a", "first"), skill("b", "x"), skill("a", "second")]);
    assert_eq!(b.len(), 3);
    assert!(!b.is_empty());
    assert_eq!(b.get("a").map(|s| s.body.as_str()), Some("first"));
    assert!(b.get("c").is_none());
    assert_eq!(b.all()[1].name, "b");
    let e = EmptySkillSet;
    assert!(e.is_empty());
    assert_eq!(e.len(), 0);
    assert!(e.get("a").is_none());
}
