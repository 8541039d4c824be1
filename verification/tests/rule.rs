use weggli_ruleset::checker::{CheckError, CheckerDraft};
use weggli_ruleset::constraint::RegexError;
use weggli_ruleset::error::SchemaError;
use weggli_ruleset::pattern::PatternError;
use weggli_ruleset::rule::{compile_checks, CheckerLanguage, Rule, RuleError, RuleFile, Severity};
use weggli_ruleset::schema::{default_check_name, read_rule, RuleDraft};
use weggli_ruleset::yaml::Yaml;

#[test]
fn test_rule_parse() -> Result<(), RuleError> {
    let rule1 = r#"
id: call-to-unbounded-copy-functions
check pattern:
  regex: func=^gets$
  pattern: '{$func();}'
"#;
    let rule = Rule::from_str(rule1)?;

    assert_eq!(rule.id(), "call-to-unbounded-copy-functions");
    assert_eq!(rule.checks().len(), 1);

    let rule2 = r#"
id: call-to-unbounded-copy-functions
description: call to unbounded copy functions
severity: medium
tags:
- CWE-120
- CWE-242
- CWE-676
check-patterns:
- name: gets
  regex: func=^gets$
  pattern: |
    { $func(); }

- name: st(r|p)(cpy|cat)
  regex: func=st(r|p)(cpy|cat)$
  pattern: '{$func();}'

- name: wc(r|p)(cpy|cat)
  regex: func=wc(r|p)(cpy|cat)$
  pattern: '{$func();}'

- name: sprintf
  regex: func=sprintf$
  pattern: '{$func();}'

- name: scanf
  regex: func=scanf$
  pattern: '{$func();}'
"#;

    let rule = Rule::from_str(rule2)?;

    assert_eq!(rule.id(), "call-to-unbounded-copy-functions");
    assert_eq!(rule.checks().len(), 5);

    Ok(())
}

fn check(name: &str, pattern: &str) -> CheckerDraft {
    CheckerDraft {
        name: String::from(name),
        language: CheckerLanguage::C,
        pattern: String::from(pattern),
        regexes: Vec::new(),
        limit: false,
        unique: false,
    }
}

fn draft(id: &str, checks: Vec<CheckerDraft>) -> RuleDraft {
    RuleDraft {
        id: String::from(id),
        author: String::new(),
        description: String::new(),
        severity: Severity::Unrated,
        tags: Vec::new(),
        checks,
    }
}

fn fault(text: &str) -> RuleError {
    match Rule::from_str(text) {
        Ok(rule) => panic!("expected a fault, got {:?}", rule),
        Err(e) => e,
    }
}

#[test]
fn a_rule_has_what_its_document_says() {
    let rule = Rule::from_str(
        "id: r1\nauthor: someone\ndescription: what it finds\nseverity: high\ntags: [b, a, b]\nignored: 1\ncheck-patterns:\n- name: one\n  language: c++\n  pattern: '{ strcpy($a, $b); }'\n  regexes: [a=^x$, 'b!=y']\n  limit: true\n- pattern: '{ gets(_); }'\n  unique: true\n",
    )
    .unwrap();
    assert_eq!(rule.id(), "r1");
    assert_eq!(rule.author(), Some("someone"));
    assert_eq!(rule.description(), Some("what it finds"));
    assert_eq!(rule.severity(), Severity::High);
    assert_eq!(rule.tags(), &vec![String::from("b"), String::from("a")]);
    assert!(rule.has_tag("a"));
    assert!(rule.has_tag("b"));
    assert!(!rule.has_tag("c"));
    let checks = rule.checks();
    assert_eq!(checks.len(), 2);
    assert_eq!(checks[0].name(), "one");
    assert_eq!(checks[0].language(), CheckerLanguage::Cplusplus);
    assert!(checks[0].limit());
    assert!(!checks[0].unique());
    assert_eq!(checks[0].pattern().constraints().len(), 2);
    assert!(checks[0].pattern().constraints().get(1).negate());
    assert_eq!(checks[1].name(), "default");
    assert_eq!(checks[1].language(), CheckerLanguage::C);
    assert!(!checks[1].limit());
    assert!(checks[1].unique());
    assert!(checks[1].pattern().constraints().is_empty());
}

#[test]
fn a_rule_has_defaults_for_what_its_document_leaves_out() {
    let rule = Rule::from_str("id: r\ncheck-pattern:\n  pattern: '{ gets(_); }'\n").unwrap();
    assert_eq!(rule.author(), None);
    assert_eq!(rule.description(), None);
    assert_eq!(rule.severity(), Severity::Unrated);
    assert_eq!(rule.severity(), Severity::default());
    assert!(rule.tags().is_empty());
    assert_eq!(rule.checks()[0].name(), "default");
    assert_eq!(rule.checks()[0].name(), default_check_name());
    assert_eq!(rule.checks()[0].language(), CheckerLanguage::default());
}

fn comparable(rule: &Rule) -> String {
    let checks: Vec<String> = rule
        .checks()
        .iter()
        .map(|c| {
            format!(
                "{}|{:?}|{}|{:?}|{:?}|{}|{}",
                c.name(),
                c.language(),
                c.pattern().text(),
                c.pattern().constraints(),
                c.identifiers(),
                c.limit(),
                c.unique()
            )
        })
        .collect();
    format!(
        "{}|{:?}|{:?}|{:?}|{:?}|{:?}",
        rule.id(),
        rule.author(),
        rule.description(),
        rule.severity(),
        rule.tags(),
        checks
    )
}

#[test]
fn one_check_may_be_written_bare_or_as_a_list_under_each_name() {
    let bare = Rule::from_str(
        "id: r\nseverity: low\ncheck-pattern:\n  name: n\n  regex: func=^gets$\n  pattern: '{$func();}'\n  unique: true\n",
    )
    .unwrap();
    assert_eq!(bare.checks().len(), 1);
    for key in ["check patterns", "check-patterns", "check pattern", "check-pattern"] {
        let listed = Rule::from_str(&format!(
            "id: r\nseverity: low\n{}:\n- name: n\n  regex: func=^gets$\n  pattern: '{{$func();}}'\n  unique: true\n",
            key
        ))
        .unwrap();
        assert_eq!(listed.checks().len(), 1);
        assert_eq!(comparable(&listed), comparable(&bare), "{}", key);
        let again = Rule::from_str(&format!(
            "id: r\nseverity: low\n{}:\n  name: n\n  regex: func=^gets$\n  pattern: '{{$func();}}'\n  unique: true\n",
            key
        ))
        .unwrap();
        assert_eq!(comparable(&again), comparable(&bare), "{}", key);
    }
}

#[test]
fn two_checks_of_one_name_are_rejected() {
    let text = "id: r\ncheck-patterns:\n- name: gets\n  pattern: '{ gets(_); }'\n- name: gets\n  pattern: '{ fgets(_); }'\n";
    assert!(matches!(fault(text), RuleError::MultipleChecksWithSameName));
    let unnamed = "id: r\ncheck-patterns:\n- pattern: '{ gets(_); }'\n- pattern: '{ fgets(_); }'\n";
    assert!(matches!(fault(unnamed), RuleError::MultipleChecksWithSameName));
    let built = Rule::from_draft(draft(
        "r",
        vec![check("a", "{ gets(_); }"), check("b", "{ gets(_); }"), check("a", "{")],
    ));
    assert!(matches!(built, Err(RuleError::MultipleChecksWithSameName)));
}

#[test]
fn compile_checks_gives_the_fault_of_two_names() {
    let mut first = check("gets", "{ $func(); }");
    first.regexes = vec![String::from("func=^gets$")];
    let second = check("gets", "{ fgets(_); }");
    assert!(matches!(
        compile_checks(vec![first, second]),
        Err(RuleError::MultipleChecksWithSameName)
    ));
    let compiled =
        compile_checks(vec![check("gets", "{ gets(_); }"), check("puts", "{ puts(_); }")]).unwrap();
    let names: Vec<&str> = compiled.iter().map(|c| c.name()).collect();
    assert_eq!(names, vec!["gets", "puts"]);
    assert!(compile_checks(Vec::new()).unwrap().is_empty());
    assert!(matches!(
        compile_checks(vec![check("a", "{"), check("a", "{ gets(_); }")]),
        Err(RuleError::Check(CheckError::Pattern(PatternError::Syntax)))
    ));
}

#[test]
fn the_fault_of_the_yaml_reader_is_given_back() {
    let text = "id: r: x";
    let expected = serde_yaml::from_str::<serde_yaml::Value>(text).unwrap_err().to_string();
    match fault(text) {
        RuleError::Parse(e) => assert_eq!(e.to_string(), expected),
        other => panic!("unexpected {:?}", other),
    }
}

#[test]
fn a_rule_needs_an_identifier() {
    assert!(matches!(fault("check-pattern:\n  pattern: '{ gets(_); }'\n"), RuleError::NoId));
    assert!(matches!(fault("id: ''\ncheck-pattern:\n  pattern: '{ gets(_); }'\n"), RuleError::NoId));
    let built = Rule::from_draft(draft("", vec![check("a", "{ gets(_); }")]));
    assert!(matches!(built, Err(RuleError::NoId)));
}

#[test]
fn a_rule_needs_a_check() {
    assert!(matches!(fault("id: r\n"), RuleError::NoChecks));
    assert!(matches!(fault("id: r\ncheck-patterns: []\n"), RuleError::NoChecks));
    assert!(matches!(Rule::from_draft(draft("r", Vec::new())), Err(RuleError::NoChecks)));
}

#[test]
fn a_check_needs_a_name_and_a_pattern() {
    let text = "id: r\ncheck-pattern:\n  name: ''\n  pattern: '{ gets(_); }'\n";
    assert!(matches!(fault(text), RuleError::Check(CheckError::NoCheckName)));
    let text = "id: r\ncheck-pattern:\n  name: n\n";
    assert!(matches!(fault(text), RuleError::Check(CheckError::NoCheckPatterns)));
}

#[test]
fn the_fault_of_a_check_is_the_fault_of_the_rule() {
    let text = "id: r\ncheck-pattern:\n  pattern: '{'\n";
    assert!(matches!(fault(text), RuleError::Check(CheckError::Pattern(PatternError::Syntax))));
    let text = "id: r\ncheck-pattern:\n  pattern: '{$f();}'\n  regex: nothing\n";
    match fault(text) {
        RuleError::Check(CheckError::Regex(RegexError::InvalidFormat(entry))) => {
            assert_eq!(entry, "nothing")
        }
        other => panic!("unexpected {:?}", other),
    }
    let text = "id: r\ncheck-pattern:\n  pattern: '{$f();}'\n  regex: 'f=('\n";
    assert!(matches!(
        fault(text),
        RuleError::Check(CheckError::Regex(RegexError::InvalidRegex(_)))
    ));
    let text = "id: r\ncheck-pattern:\n  pattern: '{$f();}'\n  regex: g=x\n";
    match fault(text) {
        RuleError::Check(CheckError::InvalidQueryVariable(name)) => assert_eq!(name, "$g"),
        other => panic!("unexpected {:?}", other),
    }
}

#[test]
fn the_first_check_with_a_fault_decides() {
    let built = Rule::from_draft(draft(
        "r",
        vec![check("a", "{ gets(_); }"), check("b", "{"), check("", "{ gets(_); }")],
    ));
    assert!(matches!(
        built,
        Err(RuleError::Check(CheckError::Pattern(PatternError::Syntax)))
    ));
    let built = Rule::from_draft(draft(
        "r",
        vec![check("a", "{ gets(_); }"), check("", "{"), check("a", "{ gets(_); }")],
    ));
    assert!(matches!(built, Err(RuleError::Check(CheckError::NoCheckName))));
}

#[test]
fn a_text_that_is_no_yaml_is_rejected() {
    assert!(matches!(fault("id: r: x"), RuleError::Parse(_)));
    assert!(matches!(fault("{"), RuleError::Parse(_)));
    assert!(matches!(fault("id: r\nid: s\n"), RuleError::Parse(_)));
}

fn schema_fault(text: &str) -> SchemaError {
    match fault(text) {
        RuleError::Schema(e) => e,
        other => panic!("expected a schema fault, got {:?}", other),
    }
}

#[test]
fn a_document_that_is_no_rule_is_rejected() {
    assert!(matches!(schema_fault(""), SchemaError::NotATable));
    assert!(matches!(schema_fault("- id: r\n"), SchemaError::NotATable));
    assert!(matches!(schema_fault("id: r\ncheck-patterns:\n- just a string\n"), SchemaError::NotATable));
    let invalid = |text: &str, field: &str| match schema_fault(text) {
        SchemaError::InvalidField(name) => assert_eq!(name, field, "{:?}", text),
        other => panic!("expected InvalidField, got {:?}", other),
    };
    let check = "check-pattern:\n  pattern: '{ gets(_); }'\n";
    invalid(&format!("id: 12\n{}", check), "id");
    invalid(&format!("id: r\nauthor: [a]\n{}", check), "author");
    invalid(&format!("id: r\ndescription: true\n{}", check), "description");
    invalid(&format!("id: r\nseverity: severe\n{}", check), "severity");
    invalid(&format!("id: r\nseverity: High\n{}", check), "severity");
    invalid(&format!("id: r\ntags: one\n{}", check), "tags");
    invalid(&format!("id: r\ntags: [1, 2]\n{}", check), "tags");
    invalid("id: r\ncheck-patterns: text\n", "check patterns");
    invalid("id: r\ncheck-pattern:\n  pattern: '{ gets(_); }'\n  name: 7\n", "name");
    invalid("id: r\ncheck-pattern:\n  pattern: '{ gets(_); }'\n  language: rust\n", "language");
    invalid("id: r\ncheck-pattern:\n  pattern: [a]\n", "pattern");
    invalid("id: r\ncheck-pattern:\n  pattern: '{ gets(_); }'\n  regex: []\n", "regexes");
    invalid("id: r\ncheck-pattern:\n  pattern: '{ gets(_); }'\n  regex: [1]\n", "regexes");
    invalid("id: r\ncheck-pattern:\n  pattern: '{ gets(_); }'\n  limit: 'yes'\n", "limit");
    invalid("id: r\ncheck-pattern:\n  pattern: '{ gets(_); }'\n  unique: 1\n", "unique");
}

#[test]
fn a_field_may_stand_once() {
    let text = "id: r\ncheck-pattern:\n  pattern: '{ gets(_); }'\ncheck patterns:\n- pattern: '{ gets(_); }'\n";
    match schema_fault(text) {
        SchemaError::RepeatedField(name) => assert_eq!(name, "check patterns"),
        other => panic!("unexpected {:?}", other),
    }
    let text = "id: r\ncheck-pattern:\n  pattern: '{$f();}'\n  regex: f=a\n  regexes: [f=b]\n";
    match schema_fault(text) {
        SchemaError::RepeatedField(name) => assert_eq!(name, "regexes"),
        other => panic!("unexpected {:?}", other),
    }
}

#[test]
fn the_fields_are_read_in_their_order() {
    let text = "severity: severe\ntags: 1\ncheck-pattern:\n  limit: 3\n  language: rust\n";
    assert!(matches!(fault(text), RuleError::NoId));
    let text = "id: r\nseverity: severe\ntags: 1\ncheck-pattern:\n  limit: 3\n  language: rust\n";
    assert!(matches!(schema_fault(text), SchemaError::InvalidField(name) if name == "severity"));
    let text = "id: r\ncheck-pattern:\n  limit: 3\n  language: rust\n";
    assert!(matches!(schema_fault(text), SchemaError::InvalidField(name) if name == "language"));
    let text = "id: ''\ncheck-pattern:\n  limit: 3\n";
    assert!(matches!(fault(text), RuleError::Check(CheckError::NoCheckPatterns)));
}

#[test]
fn the_constraints_may_be_one_string_or_a_list_or_null() {
    let count = |regex: &str| {
        let text = format!("id: r\ncheck-pattern:\n  pattern: '{{$f($a);}}'\n{}", regex);
        Rule::from_str(&text).unwrap().checks()[0].pattern().constraints().len()
    };
    assert_eq!(count(""), 0);
    assert_eq!(count("  regex: ~\n"), 0);
    assert_eq!(count("  regex: f=x\n"), 1);
    assert_eq!(count("  regexes: f=x\n"), 1);
    assert_eq!(count("  regex: [f=x, a=y]\n"), 2);
    assert_eq!(count("  regexes:\n  - f=x\n  - a=y\n  - f=z\n"), 2);
}

#[test]
fn read_rule_gives_the_draft_of_a_document() {
    let doc = Yaml::parse("id: r\ntags: [a, a]\ncheck-pattern:\n  pattern: p\n  regex: x\n").unwrap();
    let draft = read_rule(&doc).unwrap();
    assert_eq!(draft.id, "r");
    assert_eq!(draft.author, "");
    assert_eq!(draft.tags, vec![String::from("a"), String::from("a")]);
    assert_eq!(draft.checks.len(), 1);
    assert_eq!(draft.checks[0].name, "default");
    assert_eq!(draft.checks[0].pattern, "p");
    assert_eq!(draft.checks[0].regexes, vec![String::from("x")]);
    assert!(Rule::from_document(&doc).is_err());
}

#[test]
fn severities_are_read_from_their_names_and_stand_in_order() {
    let all = [
        (Severity::Unrated, "none"),
        (Severity::Low, "low"),
        (Severity::Medium, "medium"),
        (Severity::High, "high"),
        (Severity::Critical, "critical"),
    ];
    for (rank, (severity, name)) in all.iter().enumerate() {
        assert_eq!(Severity::from_name(name), Some(*severity));
        assert_eq!(severity.name(), *name);
        assert_eq!(severity.rank() as usize, rank);
        for (other, _) in all.iter() {
            assert_eq!(severity.at_least(*other), severity >= other);
        }
    }
    assert_eq!(Severity::from_name("None"), None);
    assert_eq!(Severity::from_name(""), None);
    assert_eq!(Severity::from_name("unrated"), None);
    assert!(Severity::Unrated < Severity::Low && Severity::High < Severity::Critical);
}

#[test]
fn languages_are_read_in_either_case() {
    assert_eq!(CheckerLanguage::from_name("c"), Some(CheckerLanguage::C));
    assert_eq!(CheckerLanguage::from_name("C"), Some(CheckerLanguage::C));
    assert_eq!(CheckerLanguage::from_name("c++"), Some(CheckerLanguage::Cplusplus));
    assert_eq!(CheckerLanguage::from_name("C++"), Some(CheckerLanguage::Cplusplus));
    assert_eq!(CheckerLanguage::from_name("cpp"), None);
    assert_eq!(CheckerLanguage::from_name(""), None);
    assert!(CheckerLanguage::C.is_c() && !CheckerLanguage::C.is_cxx());
    assert!(CheckerLanguage::Cplusplus.is_cxx() && !CheckerLanguage::Cplusplus.is_c());
    assert_eq!(CheckerLanguage::from_cxx(true), CheckerLanguage::Cplusplus);
    assert_eq!(CheckerLanguage::from_cxx(false), CheckerLanguage::C);
}

#[test]
fn a_fault_in_a_file_names_the_file() {
    let good = RuleFile {
        path: String::from("rules/a.yml"),
        contents: Ok(String::from("id: r\ncheck-pattern:\n  pattern: '{ gets(_); }'\n")),
    };
    assert_eq!(Rule::from_file(&good).unwrap().id(), "r");
    let bad = RuleFile { path: String::from("rules/b.yml"), contents: Ok(String::from("id: r\n")) };
    match Rule::from_file(&bad) {
        Err(RuleError::ParseFile(path, cause)) => {
            assert_eq!(path, "rules/b.yml");
            assert!(matches!(*cause, RuleError::NoChecks));
        }
        other => panic!("unexpected {:?}", other),
    }
    let gone = RuleFile {
        path: String::from("rules/c.yml"),
        contents: Err(String::from("permission denied")),
    };
    match Rule::from_file(&gone) {
        Err(RuleError::ParseFile(path, cause)) => {
            assert_eq!(path, "rules/c.yml");
            assert!(matches!(*cause, RuleError::Unreadable(why) if why == "permission denied"));
        }
        other => panic!("unexpected {:?}", other),
    }
}
