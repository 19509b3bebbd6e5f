use rust_dotenv::dotenv::DotEnv;
use rust_dotenv::files::{env_file_name, file_to_load, local_file_name};
use rust_dotenv::line::parse_line;
use rust_dotenv::text::trim;
use rust_dotenv::vars::parse_var;

fn store(lines: &[&str]) -> DotEnv {
    let v: Vec<String> = lines.iter().map(|l| l.to_string()).collect();
    DotEnv::from_lines(&v)
}

fn pair(k: &str, v: &str) -> Option<(String, String)> {
    Some((k.to_string(), v.to_string()))
}

#[test]
fn parse_var_strips_one_layer_of_quotes() {
    assert_eq!(parse_var("\"bar\"".to_string()), "bar");
    assert_eq!(parse_var("\"\"bar\"\"".to_string()), "\"bar\"");
    assert_eq!(parse_var("\"a\"b\"".to_string()), "a\"b");
    assert_eq!(parse_var("\"\"".to_string()), "");
    assert_eq!(parse_var("\"é ü\"".to_string()), "é ü");
}

#[test]
fn parse_var_leaves_unquoted_values() {
    assert_eq!(parse_var("bar".to_string()), "bar");
    assert_eq!(parse_var("\"bar".to_string()), "\"bar");
    assert_eq!(parse_var("bar\"".to_string()), "bar\"");
    assert_eq!(parse_var("'bar'".to_string()), "'bar'");
    assert_eq!(parse_var(String::new()), "");
}

#[test]
fn parse_var_lone_quote_is_unchanged() {
    assert_eq!(parse_var("\"".to_string()), "\"");
}

#[test]
fn trim_removes_surrounding_white_space() {
    assert_eq!(trim("  a b \t"), "a b");
    assert_eq!(trim("\u{A0}x\u{3000}"), "x");
    assert_eq!(trim(" \t "), "");
    assert_eq!(trim(""), "");
    assert_eq!(trim("x"), "x");
}

#[test]
fn parse_line_splits_on_first_equals() {
    assert_eq!(parse_line("FOO=bar"), pair("FOO", "bar"));
    assert_eq!(parse_line("A=b=c"), pair("A", "b=c"));
    assert_eq!(parse_line("  KEY3 = value3  "), pair("KEY3", "value3"));
    assert_eq!(parse_line("KEY2=\"quoted value\""), pair("KEY2", "quoted value"));
    assert_eq!(parse_line("K= \" padded \" "), pair("K", " padded "));
    assert_eq!(parse_line("=v"), pair("", "v"));
    assert_eq!(parse_line("K="), pair("K", ""));
    assert_eq!(parse_line(" # x=y"), pair("# x", "y"));
}

#[test]
fn parse_line_skips_comments_blank_lines_and_lines_without_equals() {
    assert_eq!(parse_line("# FOO=bar"), None);
    assert_eq!(parse_line("#"), None);
    assert_eq!(parse_line(""), None);
    assert_eq!(parse_line("FOO"), None);
    assert_eq!(parse_line("   "), None);
}

#[test]
fn get_var_ignores_case() {
    let env = store(&["FOO=bar"]);
    assert_eq!(env.get_var("foo".to_string()), Some("bar".to_string()));
    assert_eq!(env.get_var("FOO".to_string()), Some("bar".to_string()));
    assert_eq!(env.get_var("Foo".to_string()), Some("bar".to_string()));
    assert_eq!(env.get_var("bar".to_string()), None);
}

#[test]
fn quoted_value_is_unquoted() {
    let env = store(&["FOO=\"bar\""]);
    assert_eq!(env.get_var("FOO".to_string()), Some("bar".to_string()));
}

#[test]
fn comment_and_blank_lines_add_nothing() {
    let env = store(&["# FOO=bar", ""]);
    assert!(env.all_vars().is_empty());
    assert!(!env.has_var("FOO".to_string()));
    assert!(!env.has_var("# FOO".to_string()));
}

#[test]
fn line_without_equals_adds_nothing() {
    let env = store(&["FOO"]);
    assert!(env.all_vars().is_empty());
    assert!(!env.has_var("FOO".to_string()));
}

#[test]
fn keys_are_stored_upper_case() {
    let env = store(&["lower=1", "  Mixed = 2 "]);
    let mut keys: Vec<String> = env.all_vars().iter().map(|p| p.0.clone()).collect();
    keys.sort();
    assert_eq!(keys, vec!["LOWER".to_string(), "MIXED".to_string()]);
    assert!(env.has_var("lower".to_string()));
    assert!(env.has_var("MIXED".to_string()));
}

#[test]
fn later_line_wins_over_same_key_of_any_case() {
    let env = store(&["foo=1", "FOO=2", "Foo=3", "bar=x"]);
    assert_eq!(env.all_vars().len(), 2);
    assert_eq!(env.get_var("foo".to_string()), Some("3".to_string()));
    assert_eq!(env.get_var("BAR".to_string()), Some("x".to_string()));
}

#[test]
fn set_var_first_write_wins() {
    let mut env = store(&[]);
    assert!(env.set_var("NEW".to_string(), "x".to_string()));
    assert_eq!(env.get_var("new".to_string()), Some("x".to_string()));
    assert!(!env.set_var("NEW".to_string(), "y".to_string()));
    assert_eq!(env.get_var("new".to_string()), Some("x".to_string()));
    assert!(!env.set_var("new".to_string(), "z".to_string()));
    assert_eq!(env.get_var("NEW".to_string()), Some("x".to_string()));
}

#[test]
fn set_var_does_not_replace_loaded_value() {
    let mut env = store(&["FOO=bar"]);
    assert!(!env.set_var("foo".to_string(), "baz".to_string()));
    assert_eq!(env.get_var("FOO".to_string()), Some("bar".to_string()));
}

#[test]
fn set_var_unquotes_value() {
    let mut env = store(&["A=1"]);
    assert!(env.set_var("b".to_string(), "\"two\"".to_string()));
    assert_eq!(env.get_var("B".to_string()), Some("two".to_string()));
    assert_eq!(env.all_vars().len(), 2);
}

#[test]
fn store_of_no_lines_is_empty() {
    let env = store(&[]);
    assert!(env.all_vars().is_empty());
    assert_eq!(env.get_var("A".to_string()), None);
    assert!(!env.has_var("A".to_string()));
}

#[test]
fn clone_keeps_variables() {
    let env = store(&["A=1", "B=2"]);
    let copy = env.clone();
    assert_eq!(copy.get_var("a".to_string()), Some("1".to_string()));
    assert_eq!(copy.get_var("b".to_string()), Some("2".to_string()));
    assert_eq!(copy.all_vars().len(), 2);
}

#[test]
fn file_names() {
    assert_eq!(env_file_name(""), ".env");
    assert_eq!(env_file_name("test"), ".env.test");
    assert_eq!(local_file_name(".env"), ".env.local");
    assert_eq!(local_file_name(".env.test"), ".env.test.local");
}

#[test]
fn local_override_is_preferred() {
    assert_eq!(file_to_load("test", true), ".env.test.local");
    assert_eq!(file_to_load("test", false), ".env.test");
    assert_eq!(file_to_load("", true), ".env.local");
    assert_eq!(file_to_load("", false), ".env");
    let env = store(&["A=2"]);
    assert_eq!(env.get_var("A".to_string()), Some("2".to_string()));
}
