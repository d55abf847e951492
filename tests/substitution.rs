use late_subst::{substitute_str, Arguments, LateSubstitution};

fn args(pairs: &[(&str, &str)]) -> Arguments {
    let mut a = Arguments::new();
    for (k, v) in pairs {
        a.insert(k.to_string(), v.to_string());
    }
    a
}

#[test]
fn substitution() {
    let user_string: String = "some user string: {id}".into();
    assert_eq!("some user string: x", user_string.late_substitution(args(&[("id", "x")])));
    let user_string: String = r#"some user string: {"id"}"#.into();
    assert_eq!("some user string: id", user_string.late_substitution(args(&[("id", "x")])));
    let user_string: String = r#"some user string: {  "id"  }"#.into();
    assert_eq!("some user string: id", user_string.late_substitution(args(&[("id", "x")])));
    let user_string: String = "some user string: {id}".into();
    assert_eq!("some user string: None", user_string.late_substitution(args(&[])));
}

#[test]
fn escaped_brace() {
    assert_eq!("{", r#"{"{"}"#.late_substitution(args(&[])));
    assert_eq!("}", r#"{"}"}"#.late_substitution(args(&[])));
}

#[test]
fn adjacent_tokens() {
    assert_eq!("12", "{a}{b}".late_substitution(args(&[("a", "1"), ("b", "2")])));
}

#[test]
fn empty_template() {
    assert_eq!("", "".late_substitution(args(&[("a", "1")])));
}

#[test]
fn text_without_braces_is_kept() {
    let t = "plain text, with \"quotes\" and ünïcödé";
    assert_eq!(t, t.late_substitution(args(&[("plain", "x")])));
}

#[test]
fn present_name_gives_its_value() {
    let a = args(&[("user.name-1_$", "Ada"), ("k", "v")]);
    assert_eq!("Ada", substitute_str("{user.name-1_$}", &a));
    assert_eq!("v", substitute_str("{k}", &a));
}

#[test]
fn absent_name_gives_none() {
    assert_eq!("None", substitute_str("{missing}", &args(&[("other", "x")])));
    assert_eq!("None", substitute_str("{k}", &args(&[])));
}

#[test]
fn literal_gives_its_text() {
    let a = args(&[("x", "1")]);
    assert_eq!("x", substitute_str(r#"{"x"}"#, &a));
    assert_eq!("", substitute_str(r#"{""}"#, &a));
    assert_eq!("a {b} c\nd", substitute_str("{\"a {b} c\nd\"}", &a));
}

#[test]
fn spaces_around_name_ignored() {
    let a = args(&[("k", "value")]);
    assert_eq!(substitute_str("{k}", &a), substitute_str("{ k }", &a));
    assert_eq!("value", substitute_str("{\t k \n}", &a));
    assert_eq!("value", substitute_str("{\u{3000}k\u{a0}}", &a));
    assert_eq!(substitute_str("{q}", &a), substitute_str("{ q }", &a));
}

#[test]
fn malformed_tokens_are_kept() {
    let a = args(&[("foo", "F"), ("a", "A")]);
    assert_eq!("{}", substitute_str("{}", &a));
    assert_eq!("{ }", substitute_str("{ }", &a));
    assert_eq!("{foo!}", substitute_str("{foo!}", &a));
    assert_eq!("{\"open}", substitute_str("{\"open}", &a));
    assert_eq!("{foo", substitute_str("{foo", &a));
    assert_eq!("foo}", substitute_str("foo}", &a));
    assert_eq!("{f o}", substitute_str("{f o}", &a));
    assert_eq!("{ünï}", substitute_str("{ünï}", &a));
}

#[test]
fn brace_before_token() {
    let a = args(&[("a", "A")]);
    assert_eq!("{A}", substitute_str("{{a}}", &a));
    assert_eq!("x{A", substitute_str("x{{a}", &a));
}

#[test]
fn text_around_tokens_is_kept() {
    let a = args(&[("n", "3"), ("unit", "kg")]);
    assert_eq!("weight: 3 kg (None)", substitute_str("weight: {n} { unit } ({w})", &a));
}

#[test]
fn arguments_not_consumed() {
    let a = args(&[("id", "7")]);
    assert_eq!("7", substitute_str("{id}", &a));
    assert_eq!("7-7", substitute_str("{id}-{id}", &a));
    assert_eq!(Some(&"7".to_string()), a.get("id"));
}

#[test]
fn insert_replaces_value() {
    let mut a = Arguments::new();
    assert!(!a.contains_key("k"));
    assert_eq!(None, a.get("k"));
    a.insert("k".to_string(), "1".to_string());
    a.insert("j".to_string(), "2".to_string());
    a.insert("k".to_string(), "3".to_string());
    assert!(a.contains_key("k"));
    assert_eq!(Some(&"3".to_string()), a.get("k"));
    assert_eq!(Some(&"2".to_string()), a.get("j"));
    assert_eq!("3", substitute_str("{k}", &a));
}

#[test]
fn string_and_str_agree() {
    let t = "{a} and {\"b\"}";
    let from_str = t.late_substitution(args(&[("a", "1")]));
    let from_string = t.to_string().late_substitution(args(&[("a", "1")]));
    assert_eq!("1 and b", from_str);
    assert_eq!(from_str, from_string);
}
