use weggli_ruleset::checker::{CheckError, Checker, CheckerDraft};
use weggli_ruleset::constraint::RegexError;
use weggli_ruleset::pattern::PatternError;
use weggli_ruleset::rule::CheckerLanguage;
use weggli_ruleset::source::SourceParser;

fn draft(name: &str, pattern: &str, regexes: &[&str]) -> CheckerDraft {
    CheckerDraft {
        name: String::from(name),
        language: CheckerLanguage::C,
        pattern: String::from(pattern),
        regexes: regexes.iter().map(|s| s.to_string()).collect(),
        limit: false,
        unique: false,
    }
}

fn offsets(checker: &Checker, source: &str) -> Vec<usize> {
    let mut parser = SourceParser::new(checker.language().is_cxx()).unwrap();
    let parsed = parser.parse(source).unwrap();
    checker.check_match(&parsed).iter().map(|m| m.start_offset()).collect()
}

#[test]
fn compile_keeps_what_the_draft_says() {
    let mut d = draft("copy", "{ strcpy($a, $b); }", &["a=^dst$"]);
    d.language = CheckerLanguage::Cplusplus;
    d.limit = true;
    let checker = Checker::compile(d).unwrap();
    assert_eq!(checker.name(), "copy");
    assert_eq!(checker.name_for_match(), "copy");
    assert_eq!(checker.language(), CheckerLanguage::Cplusplus);
    assert!(checker.limit());
    assert!(!checker.unique());
    assert_eq!(checker.identifiers(), &vec![String::from("strcpy")]);
    assert_eq!(checker.pattern().text(), "{ strcpy($a, $b); }");
    assert!(checker.pattern().is_cxx());
    assert_eq!(checker.pattern().constraints().get(0).name(), "$a");
}

#[test]
fn compile_rejects_an_empty_name_first() {
    match Checker::compile(draft("", "{", &["nothing"])) {
        Err(CheckError::NoCheckName) => {}
        other => panic!("expected NoCheckName, got {:?}", other),
    }
}

#[test]
fn compile_rejects_the_constraints_before_the_pattern() {
    match Checker::compile(draft("x", "{", &["nothing"])) {
        Err(CheckError::Regex(RegexError::InvalidFormat(entry))) => assert_eq!(entry, "nothing"),
        other => panic!("expected InvalidFormat, got {:?}", other),
    }
    match Checker::compile(draft("x", "{", &["a=("])) {
        Err(CheckError::Regex(RegexError::InvalidRegex(_))) => {}
        other => panic!("expected InvalidRegex, got {:?}", other),
    }
}

#[test]
fn checker_rejects_a_pattern_with_a_fault() {
    match Checker::compile(draft("x", "{", &["a=b"])) {
        Err(CheckError::Pattern(PatternError::Syntax)) => {}
        other => panic!("expected Syntax, got {:?}", other),
    }
    match Checker::compile(draft("x", "{a;} {b;}", &[])) {
        Err(CheckError::Pattern(PatternError::MultipleRoots)) => {}
        other => panic!("expected MultipleRoots, got {:?}", other),
    }
    match Checker::compile(draft("x", "", &[])) {
        Err(CheckError::Pattern(PatternError::UnsupportedRoot)) => {}
        other => panic!("expected UnsupportedRoot, got {:?}", other),
    }
}

#[test]
fn compile_rejects_a_constraint_on_a_variable_the_pattern_lacks() {
    match Checker::compile(draft("x", "{$func();}", &["other=^gets$"])) {
        Err(CheckError::InvalidQueryVariable(name)) => assert_eq!(name, "$other"),
        other => panic!("expected InvalidQueryVariable, got {:?}", other),
    }
    match Checker::compile(draft("x", "{$f($a);}", &["f=x", "b=y", "c=z"])) {
        Err(CheckError::InvalidQueryVariable(name)) => assert_eq!(name, "$b"),
        other => panic!("expected InvalidQueryVariable, got {:?}", other),
    }
    assert!(Checker::compile(draft("x", "{$f($a);}", &["f=x", "a! = y"])).is_ok());
}

#[test]
fn can_match_asks_for_every_identifier() {
    let checker = Checker::compile(draft("x", "{ memcpy(dst, $b); }", &[])).unwrap();
    assert_eq!(checker.identifiers(), &vec![String::from("memcpy"), String::from("dst")]);
    assert!(checker.can_match("memcpy(dst, src)"));
    assert!(checker.can_match("dst memcpy"));
    assert!(checker.can_match("xmemcpyx xdstx"));
    assert!(!checker.can_match("memcpy(d, src)"));
    assert!(!checker.can_match("dst = memcp y"));
    assert!(!checker.can_match(""));
}

#[test]
fn can_match_holds_of_any_source_without_identifiers() {
    let checker = Checker::compile(draft("x", "{ $f($a); }", &[])).unwrap();
    assert!(checker.identifiers().is_empty());
    assert!(checker.can_match(""));
    assert!(checker.can_match("anything"));
}

#[test]
fn can_match_looks_at_bytes() {
    let checker = Checker::compile(draft("x", "{ gruen(); }", &[])).unwrap();
    assert_eq!(checker.identifiers(), &vec![String::from("gruen")]);
    assert!(checker.can_match("// gr\u{fc}n \u{2003}\nvoid f() { gruen(); }"));
    assert!(!checker.can_match("void f() { gr\u{fc}en(); }"));
    assert!(!checker.can_match("void f() { gru\u{20ac}en(); }"));
}

#[test]
fn a_source_with_a_match_passes_can_match() {
    let checker = Checker::compile(draft("x", "{ strcpy($a, $b); }", &[])).unwrap();
    let source = "void f(char *a, char *b) { strcpy(a, b); }";
    let mut parser = SourceParser::new(false).unwrap();
    let parsed = parser.parse(source).unwrap();
    let found = checker.structural_matches(&parsed);
    assert_eq!(found.len(), 1);
    assert!(checker.can_match(source));
    assert_eq!(found[0].start_offset(), 0);
    assert_eq!(found[0].value("$a"), Some("a"));
    assert_eq!(found[0].value("$b"), Some("b"));
    assert_eq!(found[0].value("$c"), None);
    assert_eq!(found[0].value("a"), None);
    assert_eq!(found[0].bindings().len(), 2);
    let mut key = found[0].key();
    key.values.sort();
    assert_eq!(key.start_offset, 0);
    assert_eq!(key.values, vec![String::from("a"), String::from("b")]);
    assert_eq!(found[0].result().start_offset(), 0);
}

#[test]
fn a_type_of_several_words_is_looked_for_as_it_is_written() {
    let checker = Checker::compile(draft("x", "{ unsigned  int $v; }", &[])).unwrap();
    assert_eq!(checker.identifiers(), &vec![String::from("unsigned  int")]);
    for source in [
        "void f() { unsigned  int a; }",
        "void f() { unsigned int a; }",
        "void f() { unsigned\nint a; }",
        "void f() { unsigned \\\nint a; }",
        "void f() { unsigned /* */ int a; }",
    ] {
        let found = offsets(&checker, source);
        assert!(found.is_empty() || checker.can_match(source), "{:?}", source);
        assert_eq!(!found.is_empty(), source.contains("unsigned  int"), "{:?}", source);
    }
}

#[test]
fn a_source_that_fails_can_match_has_no_match() {
    let checker = Checker::compile(draft("x", "{ strcpy($a, $b); }", &[])).unwrap();
    let source = "void f(char *a, char *b) { memcpy(a, b, 1); }";
    assert!(!checker.can_match(source));
    assert_eq!(offsets(&checker, source), Vec::<usize>::new());
}

const TWO_FUNCTIONS: &str =
    "void f() { strcpy(a, a); }\nvoid g() { strcpy(a, a); strcpy(b, b); }";

#[test]
fn check_match_keeps_every_match_without_policy() {
    let checker = Checker::compile(draft("x", "{ strcpy($a, $b); }", &[])).unwrap();
    assert_eq!(offsets(&checker, TWO_FUNCTIONS), vec![0, 27, 27]);
}

#[test]
fn check_match_applies_unique() {
    let mut d = draft("x", "{ strcpy($a, $b); }", &[]);
    d.unique = true;
    let checker = Checker::compile(d).unwrap();
    let mut parser = SourceParser::new(false).unwrap();
    let parsed = parser.parse(TWO_FUNCTIONS).unwrap();
    let kept = checker.check_match(&parsed);
    assert_eq!(kept.len(), 2);
    assert_eq!(kept[0].start_offset(), 0);
    assert_eq!(kept[0].value("$a"), Some("a"));
    assert_eq!(kept[1].start_offset(), 27);
    assert_eq!(kept[1].value("$a"), Some("b"));
}

#[test]
fn check_match_applies_limit() {
    let mut d = draft("x", "{ strcpy($a, $b); }", &[]);
    d.limit = true;
    let checker = Checker::compile(d).unwrap();
    let mut parser = SourceParser::new(false).unwrap();
    let parsed = parser.parse(TWO_FUNCTIONS).unwrap();
    let kept = checker.check_match(&parsed);
    assert_eq!(kept.len(), 2);
    assert_eq!(kept[0].start_offset(), 0);
    assert_eq!(kept[1].start_offset(), 27);
    assert_eq!(kept[1].value("$a"), Some("a"));
}

#[test]
fn check_match_applies_both_policies() {
    let mut d = draft("x", "{ strcpy($a, $b); }", &[]);
    d.limit = true;
    d.unique = true;
    let checker = Checker::compile(d).unwrap();
    let mut parser = SourceParser::new(false).unwrap();
    let parsed = parser.parse(TWO_FUNCTIONS).unwrap();
    let kept = checker.check_match(&parsed);
    assert_eq!(kept.len(), 2);
    assert_eq!(kept[0].start_offset(), 0);
    assert_eq!(kept[1].start_offset(), 27);
    assert_eq!(kept[1].value("$a"), Some("b"));
}

#[test]
fn check_match_honours_the_constraints() {
    let checker = Checker::compile(draft("x", "{ $f($a, $b); }", &["f=^strcpy$", "a!=^a$"])).unwrap();
    let mut parser = SourceParser::new(false).unwrap();
    let parsed = parser.parse(TWO_FUNCTIONS).unwrap();
    let kept = checker.check_match(&parsed);
    assert_eq!(kept.len(), 1);
    assert_eq!(kept[0].value("$f"), Some("strcpy"));
    assert_eq!(kept[0].value("$a"), Some("b"));
}
