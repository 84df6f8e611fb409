use foget::error::Error;
use foget::registry::Registry;

fn load(text: &str) -> Registry {
    match Registry::load(text) {
        Ok(r) => r,
        Err(e) => panic!("not loaded: {:?}", e),
    }
}

fn tags_of(reg: &Registry, command: &str) -> Option<Vec<String>> {
    reg.show(command).unwrap_or_else(|e| panic!("show failed: {:?}", e))
}

fn strings(v: &[&str]) -> Vec<String> {
    v.iter().map(|s| s.to_string()).collect()
}

#[test]
fn round_trip_keeps_bytes() {
    let text = "# my commands\n\n[ls]   # listing\ntags = [ \"list\",  \"dir\" ]\n\n[cp]\ntags = [\"copy\"] # done\n";
    let reg = load(text);
    assert_eq!(reg.to_text(), text);
}

#[test]
fn round_trip_of_empty_text() {
    let reg = load("");
    assert_eq!(reg.to_text(), "");
}

#[test]
fn add_to_fresh_database() {
    let mut reg = load("");
    assert_eq!(reg.add("ls", "list directory contents"), Ok(()));
    assert!(reg.contains("ls"));
    assert_eq!(tags_of(&reg, "ls"), Some(strings(&["list directory contents"])));
    assert_eq!(reg.to_text(), "[ls]\ntags = [\"list directory contents\"]\n");
}

#[test]
fn add_twice_reports_duplicate_and_keeps_text() {
    let mut reg = load("[ls]\ntags = [\"a\"]\n");
    assert_eq!(reg.add("ls", "b"), Ok(()));
    let saved = reg.to_text();
    assert_eq!(reg.add("ls", "b"), Err(Error::DuplicateTag));
    assert_eq!(reg.to_text(), saved);
    assert_eq!(tags_of(&reg, "ls"), Some(strings(&["a", "b"])));
}

#[test]
fn delete_after_add_removes_command() {
    let mut reg = load("[cp]\ntags = [\"copy\"]\n");
    assert_eq!(reg.add("ls", "list"), Ok(()));
    assert_eq!(reg.delete("ls", None), Ok(()));
    assert!(!reg.contains("ls"));
    assert_eq!(tags_of(&reg, "ls"), None);
    assert_eq!(tags_of(&reg, "cp"), Some(strings(&["copy"])));
}

#[test]
fn delete_absent_command_succeeds() {
    let mut reg = load("[cp]\ntags = [\"copy\"]\n");
    let before = reg.to_text();
    assert_eq!(reg.delete("mv", None), Ok(()));
    assert_eq!(reg.to_text(), before);
}

#[test]
fn delete_tag_keeps_other_tags_in_order() {
    let mut reg = load("[ls]\ntags = [\"a\", \"b\", \"c\", \"b\", \"d\"]\n[cp]\ntags = [\"b\"]\n");
    assert_eq!(reg.delete("ls", Some("b")), Ok(()));
    assert_eq!(tags_of(&reg, "ls"), Some(strings(&["a", "c", "d"])));
    assert_eq!(tags_of(&reg, "cp"), Some(strings(&["b"])));
}

#[test]
fn delete_tag_of_absent_command_is_internal() {
    let mut reg = load("[cp]\ntags = [\"copy\"]\n");
    let before = reg.to_text();
    assert_eq!(reg.delete("ls", Some("x")), Err(Error::Internal));
    assert_eq!(reg.to_text(), before);
}

#[test]
fn search_returns_matching_commands_in_order() {
    let mut reg = load("[b]\ntags = [\"Hidden\"]\n[a]\ntags = [\"x hidden y\", \"other\"]\n[c]\ntags = [\"none\"]\n[d]\ntags = [\"show hidden\"]\n");
    let found = reg.search("hidden").unwrap_or_else(|e| panic!("search failed: {:?}", e));
    let names: Vec<String> = found.iter().map(|m| m.command.clone()).collect();
    assert_eq!(names, strings(&["a", "d"]));
    assert_eq!(found[0].tags, strings(&["x hidden y", "other"]));
    assert_eq!(found[1].tags, strings(&["show hidden"]));
    assert_eq!(reg.add("e", "case"), Ok(()));
    assert!(matches!(reg.search("CASE"), Err(Error::TagNotFound)));
}

#[test]
fn search_without_match_is_tag_not_found() {
    let reg = load("[ls]\ntags = [\"list\"]\n");
    assert!(matches!(reg.search("zzz"), Err(Error::TagNotFound)));
}

#[test]
fn search_match_with_non_string_tag_is_internal() {
    let reg = load("[ls]\ntags = [\"list\", 3]\n");
    assert!(matches!(reg.search("list"), Err(Error::Internal)));
}

#[test]
fn modify_absent_command_fails_and_keeps_text() {
    let mut reg = load("[cp]\ntags = [\"copy\"]\n");
    let before = reg.to_text();
    assert_eq!(reg.modify("ls", "list"), Err(Error::CommandNotFound));
    assert_eq!(reg.to_text(), before);
}

#[test]
fn modify_appends_without_duplicate_check() {
    let mut reg = load("[cp]\ntags = [\"copy\"]\n");
    assert_eq!(reg.modify("cp", "copy"), Ok(()));
    assert_eq!(tags_of(&reg, "cp"), Some(strings(&["copy", "copy"])));
}

#[test]
fn add_to_command_without_tags_is_internal() {
    let mut reg = load("[ls]\nname = \"x\"\n");
    assert_eq!(reg.add("ls", "list"), Err(Error::Internal));
    assert!(matches!(reg.show("ls"), Err(Error::Internal)));
}

#[test]
fn show_with_non_string_tag_is_internal() {
    let reg = load("[ls]\ntags = [1]\n");
    assert!(matches!(reg.show("ls"), Err(Error::Internal)));
}

#[test]
fn load_rejects_bad_toml() {
    assert!(matches!(Registry::load("[ls\ntags = "), Err(Error::ParseError)));
}

#[test]
fn add_keeps_comments_elsewhere() {
    let mut reg = load("# top\n[cp] # copy\ntags = [\"copy\"]\n");
    assert_eq!(reg.add("cp", "files"), Ok(()));
    let text = reg.to_text();
    assert!(text.starts_with("# top\n[cp] # copy\n"));
    assert_eq!(tags_of(&reg, "cp"), Some(strings(&["copy", "files"])));
}

#[test]
fn scenario_ls() {
    let mut reg = load("");
    assert_eq!(reg.add("ls", "list directory contents"), Ok(()));
    assert_eq!(tags_of(&reg, "ls"), Some(strings(&["list directory contents"])));
    let saved = reg.to_text();
    assert_eq!(reg.add("ls", "list directory contents"), Err(Error::DuplicateTag));
    assert_eq!(reg.to_text(), saved);
    assert_eq!(reg.add("ls", "show hidden with -a"), Ok(()));
    assert_eq!(
        tags_of(&reg, "ls"),
        Some(strings(&["list directory contents", "show hidden with -a"]))
    );
    let found = reg.search("hidden").unwrap_or_else(|e| panic!("search failed: {:?}", e));
    assert_eq!(found.len(), 1);
    assert_eq!(found[0].command, "ls");
    assert_eq!(found[0].tags, strings(&["list directory contents", "show hidden with -a"]));
    assert_eq!(reg.delete("ls", Some("show hidden with -a")), Ok(()));
    assert_eq!(tags_of(&reg, "ls"), Some(strings(&["list directory contents"])));
    assert_eq!(reg.delete("ls", None), Ok(()));
    assert!(!reg.contains("ls"));
    assert_eq!(tags_of(&reg, "ls"), None);
}

#[test]
fn load_accepts_toml() {
    assert!(Registry::load("[ls]\ntags = [\"list\"]\n").is_ok());
    assert!(Registry::load("a = 1\n").is_ok());
}

#[test]
fn add_empty_tag_beside_non_string_is_appended() {
    let mut reg = load("[ls]\ntags = [1]\n");
    assert_eq!(reg.add("ls", ""), Ok(()));
    assert!(reg.to_text().contains("\"\""));
    assert_eq!(reg.add("ls", ""), Err(Error::DuplicateTag));
}

#[test]
fn delete_empty_tag_keeps_non_strings() {
    let mut reg = load("[ls]\ntags = [1, \"\", \"a\"]\n");
    assert_eq!(reg.delete("ls", Some("")), Ok(()));
    let text = reg.to_text();
    assert!(text.contains('1'));
    assert!(!text.contains("\"\""));
    assert!(text.contains("\"a\""));
}
