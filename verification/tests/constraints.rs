use weggli_ruleset::constraint::{split_entry, RegexConstraints, RegexError};

fn entries(list: &[&str]) -> Vec<String> {
    list.iter().map(|s| s.to_string()).collect()
}

fn parts(entry: &str) -> (String, bool, String) {
    let parts = split_entry(entry).unwrap();
    (parts.name, parts.negate, parts.source)
}

#[test]
fn split_entry_normalises_the_variable() {
    assert_eq!(parts(" func! = ^gets$ "), (String::from("$func"), true, String::from("^gets$")));
    assert_eq!(parts("func=^gets$"), (String::from("$func"), false, String::from("^gets$")));
    assert_eq!(parts("$func=x"), (String::from("$func"), false, String::from("x")));
    assert_eq!(parts("$func!=x"), (String::from("$func"), true, String::from("x")));
}

#[test]
fn split_entry_splits_at_the_first_separator_only() {
    assert_eq!(parts("a=b=c"), (String::from("$a"), false, String::from("b=c")));
    assert_eq!(parts("a!=b"), (String::from("$a"), true, String::from("b")));
    assert_eq!(parts("=="), (String::from("$"), false, String::from("=")));
}

#[test]
fn split_entry_takes_an_empty_side() {
    assert_eq!(parts("="), (String::from("$"), false, String::new()));
    assert_eq!(parts("!="), (String::from("$"), true, String::new()));
    assert_eq!(parts("$="), (String::from("$"), false, String::new()));
    assert_eq!(parts("  =  "), (String::from("$"), false, String::new()));
    assert_eq!(parts("x! ="), (String::from("$x"), true, String::new()));
}

#[test]
fn split_entry_keeps_inner_white_space_and_the_sigil_rule() {
    assert_eq!(parts(" a b = c d "), (String::from("$a b"), false, String::from("c d")));
    assert_eq!(parts("a$=x"), (String::from("$a$"), false, String::from("x")));
    assert_eq!(parts("\u{a0}v\u{2003}=\tre\n"), (String::from("$v"), false, String::from("re")));
}

#[test]
fn split_entry_needs_a_separator() {
    assert!(split_entry("nothing").is_none());
    assert!(split_entry("").is_none());
}

#[test]
fn parse_of_no_entry_gives_no_constraint() {
    let constraints = RegexConstraints::parse(&Vec::new()).unwrap();
    assert!(constraints.is_empty());
    assert_eq!(constraints.len(), 0);
    assert!(RegexConstraints::new().is_empty());
}

#[test]
fn parse_keeps_the_constraints_in_order() {
    let constraints = RegexConstraints::parse(&entries(&["a=^x$", "b!=y", "$c = z"])).unwrap();
    assert_eq!(constraints.len(), 3);
    assert_eq!(constraints.get(0).name(), "$a");
    assert!(!constraints.get(0).negate());
    assert_eq!(constraints.get(0).source(), "^x$");
    assert_eq!(constraints.get(1).name(), "$b");
    assert!(constraints.get(1).negate());
    assert_eq!(constraints.get(2).name(), "$c");
    assert_eq!(constraints.get(2).source(), "z");
    assert_eq!(constraints.position("$b"), Some(1));
    assert_eq!(constraints.position("b"), None);
}

#[test]
fn parse_compiles_the_expression() {
    let constraints = RegexConstraints::parse(&entries(&["f=^st(r|p)cpy$"])).unwrap();
    let regex = constraints.get(0).regex();
    assert_eq!(regex.as_str(), "^st(r|p)cpy$");
    assert!(regex.is_match("stpcpy"));
    assert!(!regex.is_match("memcpy"));
}

#[test]
fn parse_lets_the_later_entry_win() {
    let constraints = RegexConstraints::parse(&entries(&["a=one", "b=two", "a!=three"])).unwrap();
    assert_eq!(constraints.len(), 2);
    assert_eq!(constraints.get(0).name(), "$a");
    assert!(constraints.get(0).negate());
    assert_eq!(constraints.get(0).source(), "three");
    assert!(constraints.get(0).regex().is_match("three"));
    assert_eq!(constraints.get(1).name(), "$b");
}

#[test]
fn parse_rejects_an_entry_without_separator() {
    match RegexConstraints::parse(&entries(&["func=^gets$", "nothing", "x=("])) {
        Err(RegexError::InvalidFormat(entry)) => assert_eq!(entry, "nothing"),
        other => panic!("expected InvalidFormat, got {:?}", other),
    }
}

#[test]
fn parse_rejects_an_expression_that_does_not_compile() {
    match RegexConstraints::parse(&entries(&["func=^gets$", "x=(", "nothing"])) {
        Err(RegexError::InvalidRegex(_)) => {}
        other => panic!("expected InvalidRegex, got {:?}", other),
    }
}

#[test]
fn parse_gives_the_diagnostic_of_the_engine_back() {
    for expression in ["(", "a{2,1}", "[z-a]", r"\w{1000}{1000}"] {
        let expected = regex::Regex::new(expression).unwrap_err().to_string();
        match RegexConstraints::parse(&entries(&[&format!("x = {} ", expression)])) {
            Err(RegexError::InvalidRegex(e)) => assert_eq!(e.to_string(), expected),
            other => panic!("expected InvalidRegex, got {:?}", other),
        }
    }
}

#[test]
fn parse_rejects_an_expression_that_is_too_large() {
    match RegexConstraints::parse(&entries(&[r"x=\w{1000}{1000}"])) {
        Err(RegexError::InvalidRegex(_)) => {}
        other => panic!("expected InvalidRegex, got {:?}", other),
    }
}
