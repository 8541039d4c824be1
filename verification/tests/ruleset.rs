use weggli_ruleset::checker::CheckError;
use weggli_ruleset::rule::{Rule, RuleError, RuleFile, RuleSet};
use weggli_ruleset::ruleset::is_rule_file;

fn rule_text(id: &str, function: &str) -> String {
    format!("id: {}\ncheck-pattern:\n  pattern: '{{ {}(_); }}'\n", id, function)
}

fn file(path: &str, text: &str) -> RuleFile {
    RuleFile { path: String::from(path), contents: Ok(String::from(text)) }
}

fn keys(set: &RuleSet) -> Vec<String> {
    set.iter().iter().map(|(key, _)| key.to_string()).collect()
}

#[test]
fn rule_files_are_told_by_their_extension() {
    for name in ["a.yml", "a.yaml", "a.b.yml", "..yml", "a..yaml", "a b.yml", ".a.yml"] {
        assert!(is_rule_file(name), "{}", name);
    }
    for name in [
        "a.YML", "a.yml.bak", "a.yam", "yml", ".yml", ".yaml", "a.yml ", "a.", "", "a", "ayml", "a.xyaml",
    ] {
        assert!(!is_rule_file(name), "{}", name);
    }
}

#[test]
fn rule_files_are_told_as_the_standard_library_tells_them() {
    for name in ["a.yml", ".yml", "a.b.yaml", "a.", "a", "..yml", ".a.yaml", "x.YAML", "a.yml.bak"] {
        let extension = std::path::Path::new(name).extension().and_then(|e| e.to_str());
        assert_eq!(is_rule_file(name), matches!(extension, Some("yml") | Some("yaml")), "{}", name);
    }
}

#[test]
fn a_set_from_a_text_has_the_rule_under_default() {
    let set = RuleSet::from_str(&rule_text("r", "gets")).unwrap();
    assert_eq!(set.len(), 1);
    assert!(!set.is_empty());
    assert_eq!(set.key(0), "default");
    assert_eq!(set.rule(0).id(), "r");
    assert_eq!(set.shared_rule(0).id(), "r");
    assert!(matches!(RuleSet::from_str("id: r\n"), Err(RuleError::NoChecks)));
}

#[test]
fn a_set_from_a_file_has_the_rule_under_the_path() {
    let set = RuleSet::from_file(&file("rules/a.yml", &rule_text("r", "gets"))).unwrap();
    assert_eq!(keys(&set), vec![String::from("rules/a.yml")]);
    assert_eq!(set.rule(0).id(), "r");
    match RuleSet::from_file(&file("rules/b.yml", "id: r: x")) {
        Err(RuleError::ParseFile(path, cause)) => {
            assert_eq!(path, "rules/b.yml");
            assert!(matches!(*cause, RuleError::Parse(_)));
        }
        other => panic!("unexpected {:?}", other),
    }
}

#[test]
fn a_directory_with_a_bad_file_loads_without_it_where_errors_are_ignored() {
    let files = vec![file("d/good.yml", &rule_text("good", "gets")), file("d/bad.yml", "id: r: x")];
    let set = RuleSet::from_directory(&files, true).unwrap();
    assert_eq!(keys(&set), vec![String::from("d/good.yml")]);
    assert_eq!(set.rule(0).id(), "good");
    let files = vec![file("d/bad.yml", "id: r: x"), file("d/good.yml", &rule_text("good", "gets"))];
    let set = RuleSet::from_directory(&files, true).unwrap();
    assert_eq!(keys(&set), vec![String::from("d/good.yml")]);
}

#[test]
fn a_directory_with_a_bad_file_does_not_load_where_errors_are_not_ignored() {
    let files = vec![
        file("d/good.yml", &rule_text("good", "gets")),
        file("d/bad.yml", "id: r: x"),
        file("d/worse.yml", "id: r\n"),
    ];
    match RuleSet::from_directory(&files, false) {
        Err(RuleError::ParseFile(path, cause)) => {
            assert_eq!(path, "d/bad.yml");
            assert!(matches!(*cause, RuleError::Parse(_)));
        }
        other => panic!("unexpected {:?}", other),
    }
    let files = vec![
        file("d/worse.yml", "id: r\ncheck-pattern:\n  name: ''\n  pattern: x\n"),
        file("d/bad.yml", "id: r: x"),
    ];
    match RuleSet::from_directory(&files, false) {
        Err(RuleError::ParseFile(path, cause)) => {
            assert_eq!(path, "d/worse.yml");
            assert!(matches!(*cause, RuleError::Check(CheckError::NoCheckName)));
        }
        other => panic!("unexpected {:?}", other),
    }
}

#[test]
fn a_file_that_cannot_be_read_counts_as_a_bad_file() {
    let files = vec![
        RuleFile { path: String::from("d/gone.yml"), contents: Err(String::from("no such file")) },
        file("d/good.yaml", &rule_text("good", "gets")),
    ];
    assert_eq!(keys(&RuleSet::from_directory(&files, true).unwrap()), vec![String::from("d/good.yaml")]);
    match RuleSet::from_directory(&files, false) {
        Err(RuleError::ParseFile(path, cause)) => {
            assert_eq!(path, "d/gone.yml");
            assert!(matches!(*cause, RuleError::Unreadable(why) if why == "no such file"));
        }
        other => panic!("unexpected {:?}", other),
    }
}

#[test]
fn a_directory_loads_its_files_in_order() {
    let files = vec![
        file("d/b.yml", &rule_text("second", "gets")),
        file("d/a.yml", &rule_text("first", "gets")),
        file("d/c/c.yml", &rule_text("third", "gets")),
    ];
    for ignore_errors in [true, false] {
        let set = RuleSet::from_directory(&files, ignore_errors).unwrap();
        assert_eq!(
            keys(&set),
            vec![String::from("d/b.yml"), String::from("d/a.yml"), String::from("d/c/c.yml")]
        );
        assert_eq!(set.rule(1).id(), "first");
    }
    assert!(RuleSet::from_directory(&Vec::new(), false).unwrap().is_empty());
    assert!(RuleSet::new().is_empty());
}

#[test]
fn a_rule_under_a_key_that_is_taken_replaces_the_rule_there() {
    let rule = |id: &str| Rule::from_str(&rule_text(id, "gets")).unwrap();
    let set = RuleSet::new().insert(String::from("a"), rule("one"));
    let set = set.insert(String::from("b"), rule("two"));
    let set = set.insert(String::from("a"), rule("three"));
    assert_eq!(keys(&set), vec![String::from("a"), String::from("b")]);
    assert_eq!(set.rule(0).id(), "three");
    assert_eq!(set.rule(1).id(), "two");
    let copy = set.clone();
    assert_eq!(keys(&copy), keys(&set));
    assert_eq!(copy.rule(0).id(), "three");
    let files = vec![
        file("d/a.yml", &rule_text("old", "gets")),
        file("d/a.yml", &rule_text("new", "gets")),
    ];
    let set = RuleSet::from_directory(&files, false).unwrap();
    assert_eq!(set.len(), 1);
    assert_eq!(set.rule(0).id(), "new");
}

#[test]
fn viable_checkers_are_those_whose_identifiers_the_source_holds() {
    let two = "id: two\ncheck-patterns:\n- name: a\n  pattern: '{ gets(_); }'\n- name: b\n  pattern: '{ strcpy(_, src); }'\n- name: c\n  pattern: '{ $f(_); }'\n";
    let set = RuleSet::new()
        .insert(String::from("one"), Rule::from_str(&rule_text("one", "strcpy")).unwrap())
        .insert(String::from("two"), Rule::from_str(two).unwrap());
    assert_eq!(set.viable_checkers("strcpy(dst, src); gets(x);"), vec![(0, 0), (1, 0), (1, 1), (1, 2)]);
    assert_eq!(set.viable_checkers("strcpy(dst, source);"), vec![(0, 0), (1, 2)]);
    assert_eq!(set.viable_checkers("src gets"), vec![(1, 0), (1, 2)]);
    assert_eq!(set.viable_checkers(""), vec![(1, 2)]);
    assert_eq!(RuleSet::new().viable_checkers("strcpy"), Vec::<(usize, usize)>::new());
}
