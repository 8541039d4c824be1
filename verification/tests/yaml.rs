use weggli_ruleset::yaml::{find_field, Found, Yaml};

fn text(s: &str) -> Yaml {
    Yaml::Text(String::from(s))
}

fn names(list: &[&str]) -> Vec<String> {
    list.iter().map(|s| s.to_string()).collect()
}

#[test]
fn parse_gives_the_tree_of_the_document() {
    let doc = Yaml::parse("a: 1\nb: [x, y]\nc: {d: true, e: ~}\nf: 1.5\ng: !tag v").unwrap();
    let Yaml::Table(entries) = doc else { panic!("expected a table") };
    assert_eq!(entries.len(), 5);
    assert!(matches!(&entries[0], (Yaml::Text(k), Yaml::Number(n)) if k == "a" && n == "1"));
    match &entries[1] {
        (Yaml::Text(k), Yaml::List(items)) => {
            assert_eq!(k, "b");
            assert_eq!(items.len(), 2);
            assert!(matches!(&items[0], Yaml::Text(x) if x == "x"));
            assert!(matches!(&items[1], Yaml::Text(y) if y == "y"));
        }
        other => panic!("unexpected {:?}", other),
    }
    match &entries[2] {
        (Yaml::Text(k), Yaml::Table(inner)) => {
            assert_eq!(k, "c");
            assert!(matches!(&inner[0], (Yaml::Text(d), Yaml::Flag(true)) if d == "d"));
            assert!(matches!(&inner[1], (Yaml::Text(e), Yaml::Null) if e == "e"));
        }
        other => panic!("unexpected {:?}", other),
    }
    assert!(matches!(&entries[3], (Yaml::Text(k), Yaml::Number(n)) if k == "f" && n == "1.5"));
    assert!(matches!(&entries[4], (Yaml::Text(k), Yaml::Tagged) if k == "g"));
}

#[test]
fn parse_takes_the_empty_text_for_null() {
    assert!(matches!(Yaml::parse(""), Ok(Yaml::Null)));
}

#[test]
fn parse_rejects_what_is_no_single_document() {
    assert!(Yaml::parse("{").is_err());
    assert!(Yaml::parse("a: b: c").is_err());
    assert!(Yaml::parse("a: 1\na: 2").is_err());
    assert!(Yaml::parse("x: 1\n---\ny: 2").is_err());
}

#[test]
fn find_field_tells_missing_from_repeated() {
    let entries = vec![
        (text("id"), text("r")),
        (Yaml::Flag(true), text("x")),
        (text("check pattern"), Yaml::Null),
        (text("check-patterns"), Yaml::Null),
        (Yaml::Number(String::from("1")), text("id")),
    ];
    assert_eq!(find_field(&entries, &names(&["id"])), Found::At(0));
    assert_eq!(find_field(&entries, &names(&["check-patterns"])), Found::At(3));
    assert_eq!(find_field(&entries, &names(&["check pattern", "check-patterns"])), Found::Repeated);
    assert_eq!(find_field(&entries, &names(&["author", "true", "1"])), Found::Missing);
    assert_eq!(find_field(&entries, &Vec::new()), Found::Missing);
    assert_eq!(find_field(&Vec::new(), &names(&["id"])), Found::Missing);
}
