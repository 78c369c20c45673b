use dotlink::errors::LinkError;
use dotlink::paths::{join_path, link_filename, link_parent};

fn b(s: &str) -> Vec<u8> {
    s.as_bytes().to_vec()
}

fn expect_invalid(r: Result<Vec<u8>, LinkError>, raw: &str) {
    match r {
        Err(LinkError::InvalidPath { path }) => assert_eq!(path, b(raw)),
        _ => panic!("expected an invalid-path error for {:?}", raw),
    }
}

#[test]
fn filename_of_absolute_path() {
    assert_eq!(link_filename(&b("/home/u/.vimrc")).unwrap(), b(".vimrc"));
}

#[test]
fn parent_of_absolute_path() {
    assert_eq!(link_parent(&b("/home/u/.vimrc")).unwrap(), b("/home/u"));
}

#[test]
fn parent_of_top_level_entry_is_root() {
    assert_eq!(link_parent(&b("/x")).unwrap(), b("/"));
    assert_eq!(link_filename(&b("/x")).unwrap(), b("x"));
}

#[test]
fn root_does_not_split() {
    expect_invalid(link_filename(&b("/")), "/");
    expect_invalid(link_parent(&b("/")), "/");
    expect_invalid(link_filename(&b("///")), "///");
}

#[test]
fn empty_path_does_not_split() {
    expect_invalid(link_filename(&b("")), "");
    expect_invalid(link_parent(&b("")), "");
}

#[test]
fn trailing_slash_is_ignored() {
    assert_eq!(link_filename(&b("/a/b/")).unwrap(), b("b"));
    assert_eq!(link_parent(&b("/a/b/")).unwrap(), b("/a"));
}

#[test]
fn bare_name_has_current_dir_parent() {
    assert_eq!(link_filename(&b("cfg")).unwrap(), b("cfg"));
    assert_eq!(link_parent(&b("cfg")).unwrap(), b("."));
}

#[test]
fn dot_components_do_not_split() {
    expect_invalid(link_filename(&b("/a/..")), "/a/..");
    expect_invalid(link_filename(&b("/a/.")), "/a/.");
}

#[test]
fn join_inserts_slash() {
    assert_eq!(join_path(&b("/home/u"), &b(".vimrc")), b("/home/u/.vimrc"));
}

#[test]
fn join_after_root_adds_no_extra_slash() {
    assert_eq!(join_path(&b("/"), &b("x")), b("/x"));
}
