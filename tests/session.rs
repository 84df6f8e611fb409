use foget::error::Error;
use foget::registry::Registry;
use foget::request::Action;
use foget::session::{execute, Outcome};

fn load(text: &str) -> Registry {
    Registry::load(text).unwrap_or_else(|e| panic!("not loaded: {:?}", e))
}

#[test]
fn add_outcome_needs_save() {
    let mut reg = load("");
    let action = Action::Add { command: "ls".to_string(), tag: "list".to_string() };
    let outcome = execute(&mut reg, &action).unwrap_or_else(|e| panic!("failed: {:?}", e));
    assert!(outcome.needs_save());
    assert!(matches!(outcome, Outcome::Added { ref command, ref tag } if command == "ls" && tag == "list"));
    assert!(reg.contains("ls"));
}

#[test]
fn queries_do_not_need_save() {
    let mut reg = load("[ls]\ntags = [\"list\"]\n");
    let before = reg.to_text();
    let shown = execute(&mut reg, &Action::Show { command: "ls".to_string() })
        .unwrap_or_else(|e| panic!("failed: {:?}", e));
    assert!(!shown.needs_save());
    assert!(matches!(shown, Outcome::Shown { tags: Some(ref t), .. } if t == &vec!["list".to_string()]));
    let absent = execute(&mut reg, &Action::Show { command: "cp".to_string() })
        .unwrap_or_else(|e| panic!("failed: {:?}", e));
    assert!(matches!(absent, Outcome::Shown { tags: None, .. }));
    let found = execute(&mut reg, &Action::Search { text: "is".to_string() })
        .unwrap_or_else(|e| panic!("failed: {:?}", e));
    assert!(!found.needs_save());
    assert!(matches!(found, Outcome::Found { ref matches } if matches.len() == 1));
    let help = execute(&mut reg, &Action::Help).unwrap_or_else(|e| panic!("failed: {:?}", e));
    assert!(!help.needs_save());
    assert_eq!(reg.to_text(), before);
}

#[test]
fn failed_mutation_reports_error() {
    let mut reg = load("[ls]\ntags = [\"list\"]\n");
    let action = Action::Modify { command: "cp".to_string(), tag: "copy".to_string() };
    assert!(matches!(execute(&mut reg, &action), Err(Error::CommandNotFound)));
    let delete = Action::Delete { command: "ls".to_string(), tag: Some("list".to_string()) };
    let outcome = execute(&mut reg, &delete).unwrap_or_else(|e| panic!("failed: {:?}", e));
    assert!(outcome.needs_save());
    assert!(matches!(reg.show("ls"), Ok(Some(ref t)) if t.is_empty()));
}
