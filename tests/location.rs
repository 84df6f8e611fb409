use foget::error::Error;
use foget::location::{default_candidates, join_path, resolve_store};
use foget::text::contains_text;

#[test]
fn joins_paths() {
    assert_eq!(join_path("/home/u", "unix.toml"), "/home/u/unix.toml");
    assert_eq!(join_path("/home/u/", "unix.toml"), "/home/u/unix.toml");
    assert_eq!(join_path("", "unix.toml"), "unix.toml");
}

#[test]
fn candidates_in_order() {
    let c = default_candidates(Some("/home/u"), Some("/etc/db.toml"));
    assert_eq!(c, vec!["/home/u/unix.toml", "/home/u/.config/foget/unix.toml", "/etc/db.toml"]);
    assert_eq!(default_candidates(None, None), Vec::<String>::new());
}

#[test]
fn flag_wins_over_candidates() {
    let c = default_candidates(Some("/home/u"), None);
    let r = resolve_store(Some("/x.toml".to_string()), &c, &vec![true, true]);
    assert_eq!(r, Ok("/x.toml".to_string()));
}

#[test]
fn first_present_candidate_is_used() {
    let c = default_candidates(Some("/home/u"), Some("/etc/db.toml"));
    assert_eq!(resolve_store(None, &c, &vec![false, true, true]), Ok("/home/u/.config/foget/unix.toml".to_string()));
    assert_eq!(resolve_store(None, &c, &vec![false, false, true]), Ok("/etc/db.toml".to_string()));
}

#[test]
fn no_candidate_present_is_store_not_found() {
    let c = default_candidates(Some("/home/u"), None);
    assert_eq!(resolve_store(None, &c, &vec![false, false]), Err(Error::StoreNotFound));
}

#[test]
fn substring_is_case_sensitive() {
    assert!(contains_text("show hidden files", "hidden"));
    assert!(!contains_text("show Hidden files", "hidden"));
    assert!(contains_text("abc", ""));
    assert!(!contains_text("ab", "abc"));
}
