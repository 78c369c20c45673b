use dotlink::env::Env;
use dotlink::expand::expand_link_file;
use dotlink::errors::LinkError;

fn b(s: &str) -> Vec<u8> {
    s.as_bytes().to_vec()
}

fn env_with(vars: Vec<(&str, &str)>, home: Option<&str>) -> Env {
    Env {
        vars: vars.into_iter().map(|(n, v)| (b(n), b(v))).collect(),
        home: home.map(b),
    }
}

fn expand_ok(raw: &str, env: &Env) -> Vec<u8> {
    expand_link_file(&b(raw), env).expect("expansion should succeed")
}

#[test]
fn expand_plain_path_unchanged() {
    let env = env_with(vec![], Some("/home/u"));
    assert_eq!(expand_ok("/etc/hosts", &env), b("/etc/hosts"));
}

#[test]
fn expand_empty_path() {
    let env = env_with(vec![], Some("/home/u"));
    assert_eq!(expand_ok("", &env), b(""));
}

#[test]
fn expand_leading_tilde() {
    let env = env_with(vec![], Some("/home/u"));
    assert_eq!(expand_ok("~/.vimrc", &env), b("/home/u/.vimrc"));
}

#[test]
fn expand_bare_tilde() {
    let env = env_with(vec![], Some("/home/u"));
    assert_eq!(expand_ok("~", &env), b("/home/u"));
}

#[test]
fn expand_tilde_without_home_stays() {
    let env = env_with(vec![], None);
    assert_eq!(expand_ok("~/.vimrc", &env), b("~/.vimrc"));
}

#[test]
fn expand_tilde_user_form_stays() {
    let env = env_with(vec![], Some("/home/u"));
    assert_eq!(expand_ok("~other/.vimrc", &env), b("~other/.vimrc"));
}

#[test]
fn expand_tilde_in_middle_stays() {
    let env = env_with(vec![], Some("/home/u"));
    assert_eq!(expand_ok("/a/~/b", &env), b("/a/~/b"));
}

#[test]
fn expand_simple_var() {
    let env = env_with(vec![("HOME", "/home/u")], None);
    assert_eq!(expand_ok("$HOME/.vimrc", &env), b("/home/u/.vimrc"));
}

#[test]
fn expand_braced_var() {
    let env = env_with(vec![("XDG", "/home/u/.config")], None);
    assert_eq!(expand_ok("${XDG}/app.yml", &env), b("/home/u/.config/app.yml"));
}

#[test]
fn expand_braced_var_adjacent_text() {
    let env = env_with(vec![("V", "mid")], None);
    assert_eq!(expand_ok("pre${V}post", &env), b("premidpost"));
}

#[test]
fn expand_default_used_when_unset() {
    let env = env_with(vec![], None);
    assert_eq!(expand_ok("${MISSING:-/fallback}/x", &env), b("/fallback/x"));
}

#[test]
fn expand_default_ignored_when_set() {
    let env = env_with(vec![("D", "/real")], None);
    assert_eq!(expand_ok("${D:-/fallback}/x", &env), b("/real/x"));
}

#[test]
fn expand_unset_var_is_error() {
    let env = env_with(vec![("OTHER", "x")], Some("/home/u"));
    match expand_link_file(&b("/a/$UNSET_VAR/b"), &env) {
        Err(LinkError::ExpansionError { var }) => assert_eq!(var, b("UNSET_VAR")),
        other => panic!("expected an expansion error, got {:?}", other.is_ok()),
    }
}

#[test]
fn expand_unset_braced_var_is_error() {
    let env = env_with(vec![], None);
    match expand_link_file(&b("${NOPE}"), &env) {
        Err(LinkError::ExpansionError { var }) => assert_eq!(var, b("NOPE")),
        other => panic!("expected an expansion error, got {:?}", other.is_ok()),
    }
}

#[test]
fn expand_doubled_dollar_escapes() {
    let env = env_with(vec![("A", "x")], None);
    assert_eq!(expand_ok("a$$A", &env), b("a$A"));
}

#[test]
fn expand_trailing_dollar_stays() {
    let env = env_with(vec![], None);
    assert_eq!(expand_ok("price$", &env), b("price$"));
}

#[test]
fn expand_dollar_before_slash_stays() {
    let env = env_with(vec![], None);
    assert_eq!(expand_ok("$/x", &env), b("$/x"));
}

#[test]
fn expand_unclosed_brace_stays() {
    let env = env_with(vec![("A", "x")], None);
    assert_eq!(expand_ok("a${b", &env), b("a${b"));
}

#[test]
fn expand_tilde_from_var_stays_literal() {
    let env = env_with(vec![("T", "~")], Some("/home/u"));
    assert_eq!(expand_ok("$T/x", &env), b("~/x"));
}

#[test]
fn expand_tilde_then_var() {
    let env = env_with(vec![("A", "deep")], Some("/home/u"));
    assert_eq!(expand_ok("~/$A/f", &env), b("/home/u/deep/f"));
}

#[test]
fn expand_first_binding_wins() {
    let env = env_with(vec![("A", "first"), ("A", "second")], None);
    assert_eq!(expand_ok("$A", &env), b("first"));
}

#[test]
fn expand_var_name_stops_at_non_name_byte() {
    let env = env_with(vec![("HOME", "/h")], None);
    assert_eq!(expand_ok("$HOME/.x", &env), b("/h/.x"));
}
