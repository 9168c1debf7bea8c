use femtoclaw_registry::registry::is_plain_name;
use femtoclaw_registry::{
    TalonEntry, TalonError, TalonIndex, TalonInfo, TalonManifest, TalonRegistry,
};

fn manifest(name: &str, version: &str, description: &str, tags: &[&str]) -> TalonManifest {
    TalonManifest {
        name: name.to_string(),
        version: version.to_string(),
        description: description.to_string(),
        author: Some("someone".to_string()),
        license: None,
        tags: tags.iter().map(|t| t.to_string()).collect(),
        repository: None,
        homepage: None,
        runtime: None,
        permissions: Vec::new(),
        environment: Vec::new(),
        commands: Vec::new(),
    }
}

fn entry(name: &str, description: &str, tags: &[&str]) -> TalonEntry {
    TalonEntry {
        name: name.to_string(),
        version: "1.0.0".to_string(),
        description: description.to_string(),
        author: None,
        license: None,
        path: format!("/talons/{}", name),
        tags: tags.iter().map(|t| t.to_string()).collect(),
    }
}

fn registry_with(entries: Vec<TalonEntry>) -> TalonRegistry {
    let mut index = TalonIndex::new();
    for e in entries {
        index.insert(e);
    }
    TalonRegistry::from_index("/talons".to_string(), index)
}

fn names(found: &[&TalonEntry]) -> Vec<String> {
    let mut v: Vec<String> = found.iter().map(|e| e.name.clone()).collect();
    v.sort();
    v
}

#[test]
fn new_index_is_empty_with_version_one() {
    let index = TalonIndex::new();
    assert!(index.entries().is_empty());
    assert_eq!(index.version(), "1.0");
    let other = TalonIndex::with_version("2.0".to_string());
    assert_eq!(other.version(), "2.0");
}

#[test]
fn index_insert_replaces_same_name_in_place() {
    let mut index = TalonIndex::new();
    index.insert(entry("a", "first", &[]));
    index.insert(entry("b", "other", &[]));
    index.insert(entry("a", "second", &[]));
    assert_eq!(index.entries().len(), 2);
    assert_eq!(index.entries()[0].description, "second");
    assert_eq!(index.get("a").unwrap().description, "second");
    assert!(index.get("c").is_none());
}

#[test]
fn index_remove_returns_entry() {
    let mut index = TalonIndex::new();
    index.insert(entry("a", "first", &[]));
    assert_eq!(index.remove("missing"), None);
    assert_eq!(index.remove("a"), Some(entry("a", "first", &[])));
    assert!(index.get("a").is_none());
    assert!(index.entries().is_empty());
}

#[test]
fn search_matches_name_description_or_tag() {
    let registry = registry_with(vec![
        entry("alpha", "first one", &["web"]),
        entry("beta", "alpha-compatible", &[]),
        entry("gamma", "unrelated", &["cli"]),
    ]);
    assert_eq!(names(&registry.search_talons("alpha")), vec!["alpha", "beta"]);
    assert!(registry.search_talons("zzz").is_empty());
    assert_eq!(names(&registry.search_talons("web")), vec!["alpha"]);
}

#[test]
fn search_ignores_case() {
    let registry = registry_with(vec![
        entry("Alpha", "First", &["WebTools"]),
        entry("beta", "nothing", &[]),
    ]);
    assert_eq!(names(&registry.search_talons("ALPHA")), vec!["Alpha"]);
    assert_eq!(names(&registry.search_talons("webtools")), vec!["Alpha"]);
    assert_eq!(names(&registry.search_talons("first")), vec!["Alpha"]);
}

#[test]
fn search_with_empty_query_returns_all() {
    let registry = registry_with(vec![entry("a", "x", &[]), entry("b", "y", &[])]);
    assert_eq!(registry.search_talons("").len(), 2);
}

#[test]
fn list_and_get() {
    let registry = registry_with(vec![entry("a", "x", &[]), entry("b", "y", &[])]);
    assert_eq!(names(&registry.list_talons()), vec!["a", "b"]);
    assert_eq!(registry.get_talon("b").unwrap().description, "y");
    assert!(registry.get_talon("c").is_none());
    assert!(registry_with(vec![]).list_talons().is_empty());
}

#[test]
fn destination_is_inside_bound_directory() {
    let registry = registry_with(vec![]);
    assert_eq!(registry.destination("github"), Ok("/talons/github".to_string()));
    let slashed = TalonRegistry::from_index("/talons/".to_string(), TalonIndex::new());
    assert_eq!(slashed.destination("github"), Ok("/talons/github".to_string()));
    let bare = TalonRegistry::from_index(String::new(), TalonIndex::new());
    assert_eq!(bare.destination("github"), Ok("github".to_string()));
}

#[test]
fn destination_refuses_names_that_leave_the_directory() {
    let registry = registry_with(vec![]);
    for bad in ["", ".", "..", "../x", "/abs", "a/b", "nul\0"] {
        assert_eq!(registry.destination(bad), Err(TalonError::InvalidName(bad.to_string())));
    }
    assert_eq!(registry.destination("..x"), Ok("/talons/..x".to_string()));
    assert_eq!(registry.destination(".hidden"), Ok("/talons/.hidden".to_string()));
}

#[test]
fn plain_names() {
    assert!(is_plain_name("github"));
    assert!(is_plain_name("a---b"));
    assert!(is_plain_name("..."));
    assert!(!is_plain_name(".."));
    assert!(!is_plain_name("x/y"));
}

#[test]
fn add_with_unusable_name_changes_nothing() {
    let mut registry = registry_with(vec![entry("keep", "k", &[])]);
    assert_eq!(
        registry.add_talon(manifest("../escape", "1.0.0", "d", &[])),
        Err(TalonError::InvalidName("../escape".to_string()))
    );
    assert_eq!(names(&registry.list_talons()), vec!["keep"]);
}

#[test]
fn add_records_entry_at_destination() {
    let mut registry = registry_with(vec![]);
    let name = registry.add_talon(manifest("github", "1.0.0", "GitHub integration", &["devtools"]));
    assert_eq!(name, Ok("github".to_string()));
    let e = registry.get_talon("github").unwrap();
    assert_eq!(e.path, "/talons/github");
    assert_eq!(e.version, "1.0.0");
    assert_eq!(e.description, "GitHub integration");
    assert_eq!(e.author, Some("someone".to_string()));
    assert_eq!(e.tags, vec!["devtools".to_string()]);
}

#[test]
fn add_twice_keeps_one_entry_with_second_contents() {
    let mut registry = registry_with(vec![]);
    registry.add_talon(manifest("github", "1.0.0", "old", &[])).unwrap();
    registry.add_talon(manifest("github", "2.0.0", "new", &["x"])).unwrap();
    let all = registry.list_talons();
    assert_eq!(all.len(), 1);
    assert_eq!(all[0].version, "2.0.0");
    assert_eq!(all[0].description, "new");
    assert_eq!(all[0].path, "/talons/github");
}

#[test]
fn add_then_remove_leaves_name_absent() {
    let mut registry = registry_with(vec![entry("keep", "k", &[])]);
    registry.add_talon(manifest("github", "1.0.0", "d", &[])).unwrap();
    let removed = registry.remove_talon("github").unwrap();
    assert_eq!(removed.path, "/talons/github");
    assert!(registry.get_talon("github").is_none());
    assert!(registry.get_talon("keep").is_some());
}

#[test]
fn remove_absent_name_is_no_op() {
    let mut registry = registry_with(vec![entry("keep", "k", &[])]);
    assert!(registry.remove_talon("missing").is_none());
    assert_eq!(registry.list_talons().len(), 1);
}

fn found() -> Vec<(String, Result<TalonManifest, TalonError>)> {
    vec![
        ("/talons/a".to_string(), Ok(manifest("a", "1.0.0", "first", &["t"]))),
        ("/talons/bad".to_string(), Err(TalonError::MissingFrontmatter)),
        ("/talons/b".to_string(), Ok(manifest("b", "0.1.0", "second", &[]))),
    ]
}

#[test]
fn discover_records_parsed_and_skips_failures() {
    let mut registry = registry_with(vec![]);
    let infos = registry.discover_talons(found());
    assert_eq!(infos.len(), 2);
    assert_eq!(
        infos[0],
        TalonInfo {
            manifest: manifest("a", "1.0.0", "first", &["t"]),
            path: "/talons/a".to_string(),
            installed: true
        }
    );
    assert_eq!(infos[1].manifest.name, "b");
    assert_eq!(registry.list_talons().len(), 2);
    let a = registry.get_talon("a").unwrap();
    assert_eq!(a.path, "/talons/a");
    assert_eq!(a.tags, vec!["t".to_string()]);
}

#[test]
fn discover_twice_gives_same_index_and_list() {
    let mut registry = registry_with(vec![entry("old", "kept", &[])]);
    let first = registry.discover_talons(found());
    let after_first: Vec<TalonEntry> = registry.list_talons().into_iter().cloned().collect();
    let second = registry.discover_talons(found());
    let after_second: Vec<TalonEntry> = registry.list_talons().into_iter().cloned().collect();
    assert_eq!(first, second);
    assert_eq!(after_first, after_second);
    assert_eq!(after_first.len(), 3);
}

#[test]
fn discover_later_manifest_of_same_name_wins() {
    let mut registry = registry_with(vec![]);
    let infos = registry.discover_talons(vec![
        ("/talons/x1".to_string(), Ok(manifest("x", "1.0.0", "one", &[]))),
        ("/talons/x2".to_string(), Ok(manifest("x", "2.0.0", "two", &[]))),
    ]);
    assert_eq!(infos.len(), 2);
    assert_eq!(registry.list_talons().len(), 1);
    assert_eq!(registry.get_talon("x").unwrap().path, "/talons/x2");
}
