use foget::error::Error;
use foget::request::{parse_request, Action, Request};

fn args(v: &[&str]) -> Vec<String> {
    v.iter().map(|s| s.to_string()).collect()
}

fn parse(v: &[&str]) -> Result<Request, Error> {
    parse_request(&args(v))
}

#[test]
fn add_with_aliases() {
    for word in ["add", "a"] {
        match parse(&["foget", word, "ls", "list"]) {
            Ok(Request { action: Action::Add { command, tag }, no_color: false, descriptions: None }) => {
                assert_eq!(command, "ls");
                assert_eq!(tag, "list");
            }
            _ => panic!("not an add"),
        }
    }
}

#[test]
fn add_needs_two_arguments() {
    assert!(matches!(parse(&["foget", "add", "ls"]), Err(Error::NotEnoughArguments)));
    assert!(matches!(parse(&["foget", "mod", "ls"]), Err(Error::NotEnoughArguments)));
}

#[test]
fn delete_with_and_without_tag() {
    match parse(&["foget", "del", "ls"]) {
        Ok(Request { action: Action::Delete { command, tag: None }, .. }) => assert_eq!(command, "ls"),
        _ => panic!("not a delete"),
    }
    match parse(&["foget", "d", "ls", "x"]) {
        Ok(Request { action: Action::Delete { command, tag: Some(t) }, .. }) => {
            assert_eq!(command, "ls");
            assert_eq!(t, "x");
        }
        _ => panic!("not a delete"),
    }
}

#[test]
fn show_search_and_help() {
    assert!(matches!(parse(&["foget", "s", "ls"]), Ok(Request { action: Action::Show { .. }, .. })));
    assert!(matches!(parse(&["foget", "se", "dir"]), Ok(Request { action: Action::Search { .. }, .. })));
    assert!(matches!(parse(&["foget", "h"]), Ok(Request { action: Action::Help, .. })));
    assert!(matches!(parse(&["foget"]), Ok(Request { action: Action::Help, .. })));
    assert!(matches!(parse(&["foget", "show"]), Err(Error::NotEnoughArguments)));
}

#[test]
fn unknown_action_is_rejected() {
    assert!(matches!(parse(&["foget", "list", "ls"]), Err(Error::UnknownAction)));
}

#[test]
fn options_are_read() {
    match parse(&["foget", "show", "ls", "--no-color", "--descriptions", "/a.toml", "--descriptions", "/b.toml"]) {
        Ok(Request { no_color, descriptions, .. }) => {
            assert!(no_color);
            assert_eq!(descriptions, Some("/b.toml".to_string()));
        }
        Err(e) => panic!("rejected: {:?}", e),
    }
    assert!(matches!(parse(&["foget", "show", "ls", "--descriptions"]), Err(Error::NotEnoughArguments)));
}
