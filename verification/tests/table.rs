use std::collections::HashMap;

use cmdlink::config::{Config, Entry};
use cmdlink::error::Error;
use cmdlink::platform_binary::{Action, IoOutcome, Link, Operation, Platform};

fn none() -> Vec<String> {
    Vec::new()
}

fn names(list: &[&str]) -> Vec<String> {
    list.iter().map(|name| name.to_string()).collect()
}

fn entry(alias: &str, description: Option<&str>, cmd: &str) -> Entry {
    Entry {
        alias: alias.to_string(),
        description: description.map(|text| text.to_string()),
        cmd: cmd.to_string(),
    }
}

fn add(table: &mut Config, alias: &str, cmd: &str, force: bool) -> Result<(), Error> {
    table.create_alias(alias.to_string(), cmd.to_string(), None, force, &none())
}

fn action_of(table: &Config, alias: &str) -> Option<Action> {
    table.get(alias).map(|values| values.link.action())
}

fn actions(table: &Config) -> Vec<(String, Action)> {
    table
        .entries()
        .iter()
        .map(|entry| (entry.alias.clone(), action_of(table, &entry.alias).unwrap()))
        .collect()
}

/// Carries the operation out on a directory kept in memory.
fn carry_out(files: &mut HashMap<String, String>, owed: &Operation) -> IoOutcome {
    match owed.action {
        Action::Create => {
            if files.contains_key(&owed.file_name) {
                IoOutcome::AlreadyExists("File exists".to_string())
            } else {
                files.insert(owed.file_name.clone(), owed.contents.clone());
                IoOutcome::Done
            }
        }
        Action::Update => {
            files.insert(owed.file_name.clone(), owed.contents.clone());
            IoOutcome::Done
        }
        Action::Remove => match files.remove(&owed.file_name) {
            Some(_) => IoOutcome::Done,
            None => IoOutcome::NotFound("No such file".to_string()),
        },
        Action::Idle => unreachable!(),
    }
}

fn apply(table: &mut Config, files: &mut HashMap<String, String>) -> Result<(), Error> {
    while let Some(owed) = table.next_operation(Platform::Posix) {
        let outcome = carry_out(files, &owed);
        table.settle(&outcome)?;
    }
    Ok(())
}

fn present_in(table: &Config, files: &HashMap<String, String>) -> Vec<String> {
    table
        .entries()
        .iter()
        .filter(|entry| files.contains_key(&format!("{}.sh", entry.alias)))
        .map(|entry| entry.alias.clone())
        .collect()
}

#[test]
fn empty_table_has_nothing() {
    let table = Config::empty();
    assert_eq!(table.len(), 0);
    assert!(!table.is_changed());
    assert!(!table.contains("build"));
    assert!(table.get("build").is_none());
    assert_eq!(table.entries(), vec![]);
    assert_eq!(table.next_operation(Platform::Posix), None);
    assert_eq!(table.missing_links(), Vec::<String>::new());
}

#[test]
fn new_alias_is_to_be_created() {
    let mut table = Config::empty();
    assert_eq!(add(&mut table, "build", "cargo build", false), Ok(()));
    assert_eq!(table.len(), 1);
    assert!(table.is_changed());
    assert!(table.contains("build"));
    let values = table.get("build").unwrap();
    assert_eq!(values.link.action(), Action::Create);
    assert_eq!(values.link.alias(), "build");
    assert_eq!(values.link.cmd(), "cargo build");
    assert_eq!(values.description, None);
    assert!(!values.link.is_present());
}

#[test]
fn forced_new_alias_is_to_be_written() {
    let mut table = Config::empty();
    assert_eq!(add(&mut table, "build", "cargo build", true), Ok(()));
    assert_eq!(action_of(&table, "build"), Some(Action::Update));
    assert!(table.is_changed());
}

#[test]
fn new_alias_knows_whether_its_file_is_there() {
    let mut table = Config::empty();
    table
        .create_alias(
            "build".to_string(),
            "cargo build".to_string(),
            Some("compile".to_string()),
            false,
            &names(&["t", "build"]),
        )
        .unwrap();
    let values = table.get("build").unwrap();
    assert!(values.link.is_present());
    assert_eq!(values.description, Some("compile".to_string()));
    assert_eq!(values.shown(), "compile");
}

#[test]
fn existing_alias_is_rejected_without_force() {
    let mut table = Config::new(&vec![entry("build", None, "cargo build")], &names(&["build"]));
    let result = add(&mut table, "build", "make", false);
    assert_eq!(result, Err(Error::AliasExists("build".to_string())));
    assert_eq!(table.len(), 1);
    assert!(!table.is_changed());
    assert_eq!(action_of(&table, "build"), Some(Action::Idle));
    assert_eq!(table.get("build").unwrap().link.cmd(), "cargo build");
}

#[test]
fn forced_alias_replaces_in_place() {
    let mut table = Config::new(
        &vec![entry("build", Some("compile"), "cargo build"), entry("t", None, "cargo test")],
        &names(&["build", "t"]),
    );
    assert_eq!(add(&mut table, "build", "make", true), Ok(()));
    assert_eq!(table.len(), 2);
    assert!(table.is_changed());
    assert_eq!(
        table.entries(),
        vec![entry("build", None, "make"), entry("t", None, "cargo test")]
    );
    assert_eq!(action_of(&table, "build"), Some(Action::Update));
    assert_eq!(action_of(&table, "t"), Some(Action::Idle));
}

#[test]
fn force_overwrite_writes_the_second_command() {
    let mut table = Config::empty();
    let mut files = HashMap::new();
    assert_eq!(add(&mut table, "a", "echo one", false), Ok(()));
    assert_eq!(add(&mut table, "a", "echo two", true), Ok(()));
    assert_eq!(table.len(), 1);
    assert_eq!(
        table.next_operation(Platform::Posix),
        Some(Operation {
            action: Action::Update,
            alias: "a".to_string(),
            file_name: "a.sh".to_string(),
            contents: "#!/bin/sh\nexec echo two \"$@\"".to_string(),
        })
    );
    assert_eq!(apply(&mut table, &mut files), Ok(()));
    assert_eq!(files.get("a.sh"), Some(&"#!/bin/sh\nexec echo two \"$@\"".to_string()));
    assert_eq!(action_of(&table, "a"), Some(Action::Idle));
}

#[test]
fn removing_a_missing_alias_changes_nothing() {
    let mut table = Config::new(&vec![entry("build", None, "cargo build")], &names(&["build"]));
    assert_eq!(table.remove_alias("missing"), Ok(()));
    assert!(!table.is_changed());
    assert_eq!(table.len(), 1);
    assert_eq!(actions(&table), vec![("build".to_string(), Action::Idle)]);
    let mut empty = Config::empty();
    assert_eq!(empty.remove_alias("missing"), Ok(()));
    assert!(!empty.is_changed());
    assert_eq!(empty.len(), 0);
}

#[test]
fn removing_an_alias_schedules_the_removal() {
    let mut table = Config::new(
        &vec![entry("build", None, "cargo build"), entry("t", None, "cargo test")],
        &names(&["build", "t"]),
    );
    assert_eq!(table.remove_alias("t"), Ok(()));
    assert!(table.is_changed());
    assert_eq!(table.len(), 2);
    assert_eq!(
        actions(&table),
        vec![("build".to_string(), Action::Idle), ("t".to_string(), Action::Remove)]
    );
}

#[test]
fn removal_wins_over_any_pending_action() {
    let mut table = Config::empty();
    add(&mut table, "a", "echo", false).unwrap();
    add(&mut table, "b", "echo", true).unwrap();
    table.remove_alias("a").unwrap();
    table.remove_alias("b").unwrap();
    assert_eq!(
        actions(&table),
        vec![("a".to_string(), Action::Remove), ("b".to_string(), Action::Remove)]
    );
}

#[test]
fn refresh_schedules_missing_links() {
    let mut table = Config::new(
        &vec![entry("build", None, "cargo build"), entry("t", None, "cargo test")],
        &names(&["build", "t"]),
    );
    assert_eq!(table.refresh_links(&names(&["build"])), Ok(()));
    assert!(table.is_changed());
    assert_eq!(
        actions(&table),
        vec![("build".to_string(), Action::Idle), ("t".to_string(), Action::Create)]
    );
    assert!(table.get("build").unwrap().link.is_present());
    assert!(!table.get("t").unwrap().link.is_present());
}

#[test]
fn refresh_with_every_link_present_changes_nothing() {
    let mut table = Config::new(
        &vec![entry("build", None, "cargo build"), entry("t", None, "cargo test")],
        &none(),
    );
    assert_eq!(table.refresh_links(&names(&["t", "build", "other"])), Ok(()));
    assert!(!table.is_changed());
    assert_eq!(
        actions(&table),
        vec![("build".to_string(), Action::Idle), ("t".to_string(), Action::Idle)]
    );
    assert_eq!(table.missing_links(), Vec::<String>::new());
}

#[test]
fn refresh_twice_gives_the_same_actions() {
    let mut table = Config::new(
        &vec![
            entry("build", None, "cargo build"),
            entry("t", None, "cargo test"),
            entry("r", None, "cargo run"),
        ],
        &names(&["build", "t", "r"]),
    );
    table.remove_alias("r").unwrap();
    let present = names(&["build"]);
    table.refresh_links(&present).unwrap();
    let once = actions(&table);
    let changed = table.is_changed();
    table.refresh_links(&present).unwrap();
    assert_eq!(actions(&table), once);
    assert_eq!(table.is_changed(), changed);
    assert_eq!(
        once,
        vec![
            ("build".to_string(), Action::Idle),
            ("t".to_string(), Action::Create),
            ("r".to_string(), Action::Remove),
        ]
    );
}

#[test]
fn refresh_keeps_what_the_user_asked_for() {
    let mut table = Config::new(
        &vec![entry("build", None, "cargo build"), entry("t", None, "cargo test")],
        &names(&["build", "t"]),
    );
    add(&mut table, "build", "make", true).unwrap();
    table.remove_alias("t").unwrap();
    table.refresh_links(&none()).unwrap();
    assert_eq!(
        actions(&table),
        vec![("build".to_string(), Action::Update), ("t".to_string(), Action::Remove)]
    );
}

#[test]
fn refresh_after_manual_deletion_regenerates_the_file() {
    let mut table = Config::empty();
    let mut files = HashMap::new();
    add(&mut table, "x", "echo hi", false).unwrap();
    apply(&mut table, &mut files).unwrap();
    let first_text = files.get("x.sh").cloned().unwrap();
    assert_eq!(first_text, "#!/bin/sh\nexec echo hi \"$@\"");
    files.remove("x.sh");
    table.refresh_links(&present_in(&table, &files)).unwrap();
    assert_eq!(action_of(&table, "x"), Some(Action::Create));
    apply(&mut table, &mut files).unwrap();
    assert_eq!(files.get("x.sh"), Some(&first_text));
    assert_eq!(action_of(&table, "x"), Some(Action::Idle));
}

#[test]
fn create_conflict_is_reported_and_nothing_overwritten() {
    let mut table = Config::empty();
    let mut files = HashMap::new();
    add(&mut table, "a", "echo mine", false).unwrap();
    files.insert("a.sh".to_string(), "someone else's".to_string());
    assert_eq!(apply(&mut table, &mut files), Err(Error::LinkAlreadyExists("a".to_string())));
    assert_eq!(files.get("a.sh"), Some(&"someone else's".to_string()));
    assert_eq!(action_of(&table, "a"), Some(Action::Create));
    assert!(table.is_changed());
    assert_eq!(table.next_operation(Platform::Posix).unwrap().action, Action::Create);
}

#[test]
fn loading_sets_up_every_link() {
    let table = Config::new(
        &vec![entry("build", Some("compile"), "cargo build"), entry("t", None, "cargo test")],
        &names(&["t"]),
    );
    assert_eq!(table.len(), 2);
    assert!(!table.is_changed());
    assert_eq!(
        actions(&table),
        vec![("build".to_string(), Action::Idle), ("t".to_string(), Action::Idle)]
    );
    assert!(!table.get("build").unwrap().link.is_present());
    assert!(table.get("t").unwrap().link.is_present());
    assert_eq!(table.missing_links(), names(&["build"]));
    assert_eq!(table.next_operation(Platform::Posix), None);
}

#[test]
fn loading_keeps_the_later_of_two_entries() {
    let table = Config::new(
        &vec![
            entry("build", None, "cargo build"),
            entry("t", None, "cargo test"),
            entry("build", Some("with make"), "make"),
        ],
        &none(),
    );
    assert_eq!(
        table.entries(),
        vec![entry("build", Some("with make"), "make"), entry("t", None, "cargo test")]
    );
}

#[test]
fn initialize_links_clears_every_action() {
    let mut table = Config::empty();
    add(&mut table, "a", "echo", false).unwrap();
    add(&mut table, "b", "echo", true).unwrap();
    table.remove_alias("b").unwrap();
    assert_eq!(table.initialize_links(&names(&["b"])), Ok(()));
    assert_eq!(
        actions(&table),
        vec![("a".to_string(), Action::Idle), ("b".to_string(), Action::Idle)]
    );
    assert!(table.is_changed());
    assert_eq!(table.missing_links(), names(&["a"]));
}

#[test]
fn round_trip_keeps_aliases_commands_and_descriptions() {
    let mut table = Config::empty();
    add(&mut table, "build", "cargo build", false).unwrap();
    table
        .create_alias(
            "t".to_string(),
            "cargo test".to_string(),
            Some("run the tests".to_string()),
            true,
            &none(),
        )
        .unwrap();
    let saved = table.entries();
    assert_eq!(
        saved,
        vec![entry("build", None, "cargo build"), entry("t", Some("run the tests"), "cargo test")]
    );
    let back = Config::new(&saved, &none());
    assert_eq!(back.entries(), saved);
    assert!(!back.is_changed());
    assert_eq!(
        actions(&back),
        vec![("build".to_string(), Action::Idle), ("t".to_string(), Action::Idle)]
    );
}

#[test]
fn round_trip_through_config_text() {
    let mut table = Config::empty();
    add(&mut table, "build", "cargo build", false).unwrap();
    add(&mut table, "t", "cargo test", false).unwrap();
    let mut aliases = toml::Table::new();
    for saved in table.entries() {
        let mut values = toml::Table::new();
        if let Some(description) = saved.description {
            values.insert("description".to_string(), toml::Value::String(description));
        }
        values.insert("cmd".to_string(), toml::Value::String(saved.cmd));
        aliases.insert(saved.alias, toml::Value::Table(values));
    }
    let mut document = toml::Table::new();
    document.insert("aliases".to_string(), toml::Value::Table(aliases));
    let text = toml::to_string(&document).unwrap();
    let parsed: toml::Table = text.parse().unwrap();
    let mut loaded = Vec::new();
    for (alias, values) in parsed["aliases"].as_table().unwrap() {
        loaded.push(Entry {
            alias: alias.clone(),
            description: values.get("description").map(|text| text.as_str().unwrap().to_string()),
            cmd: values["cmd"].as_str().unwrap().to_string(),
        });
    }
    let back = Config::new(&loaded, &none());
    assert_eq!(back.len(), 2);
    assert_eq!(back.get("build").unwrap().link.cmd(), "cargo build");
    assert_eq!(back.get("build").unwrap().description, None);
    assert_eq!(back.get("t").unwrap().link.cmd(), "cargo test");
    assert_eq!(back.get("t").unwrap().description, None);
    assert_eq!(action_of(&back, "build"), Some(Action::Idle));
    assert_eq!(action_of(&back, "t"), Some(Action::Idle));
}

#[test]
fn operations_come_in_table_order() {
    let mut table = Config::new(
        &vec![entry("a", None, "one"), entry("b", None, "two"), entry("c", None, "three")],
        &names(&["a", "b", "c"]),
    );
    table.remove_alias("c").unwrap();
    add(&mut table, "b", "zwei", true).unwrap();
    let first = table.next_operation(Platform::Windows).unwrap();
    assert_eq!(first.action, Action::Update);
    assert_eq!(first.alias, "b");
    assert_eq!(first.file_name, "b.bat");
    assert_eq!(first.contents, "@echo off\necho.\nzwei %*");
    assert_eq!(table.settle(&IoOutcome::Done), Ok(()));
    let second = table.next_operation(Platform::Windows).unwrap();
    assert_eq!(second.action, Action::Remove);
    assert_eq!(second.alias, "c");
    assert_eq!(second.file_name, "c.bat");
    assert_eq!(table.settle(&IoOutcome::Done), Ok(()));
    assert_eq!(table.next_operation(Platform::Windows), None);
    assert_eq!(table.entries(), vec![entry("a", None, "one"), entry("b", None, "zwei")]);
}

#[test]
fn settled_removal_drops_the_record() {
    let mut table = Config::new(&vec![entry("a", None, "one")], &names(&["a"]));
    table.remove_alias("a").unwrap();
    assert_eq!(table.settle(&IoOutcome::Done), Ok(()));
    assert_eq!(table.len(), 0);
    assert!(!table.contains("a"));
    assert!(table.is_changed());
}

#[test]
fn removal_of_a_missing_file_still_drops_the_record() {
    let mut table = Config::empty();
    let mut files = HashMap::new();
    add(&mut table, "a", "one", false).unwrap();
    table.remove_alias("a").unwrap();
    assert_eq!(apply(&mut table, &mut files), Ok(()));
    assert_eq!(table.len(), 0);
    assert!(files.is_empty());
}

#[test]
fn failed_removal_keeps_the_record() {
    let mut table = Config::new(&vec![entry("a", None, "one")], &names(&["a"]));
    table.remove_alias("a").unwrap();
    assert_eq!(
        table.settle(&IoOutcome::Failed("Permission denied".to_string())),
        Err(Error::LinkRemoval("a".to_string(), "Permission denied".to_string()))
    );
    assert_eq!(table.len(), 1);
    assert_eq!(action_of(&table, "a"), Some(Action::Remove));
}

#[test]
fn failed_write_and_creation_keep_their_actions() {
    let mut table = Config::empty();
    add(&mut table, "a", "one", true).unwrap();
    assert_eq!(
        table.settle(&IoOutcome::Failed("disk full".to_string())),
        Err(Error::LinkUpdate("a".to_string(), "disk full".to_string()))
    );
    assert_eq!(action_of(&table, "a"), Some(Action::Update));
    let mut table = Config::empty();
    add(&mut table, "a", "one", false).unwrap();
    assert_eq!(
        table.settle(&IoOutcome::NotFound("no directory".to_string())),
        Err(Error::LinkCreation("a".to_string(), "no directory".to_string()))
    );
    assert_eq!(action_of(&table, "a"), Some(Action::Create));
}

#[test]
fn settle_without_anything_owed_does_nothing() {
    let mut table = Config::new(&vec![entry("a", None, "one")], &names(&["a"]));
    assert_eq!(table.settle(&IoOutcome::Failed("ignored".to_string())), Ok(()));
    assert_eq!(table.len(), 1);
    assert!(!table.is_changed());
    assert_eq!(action_of(&table, "a"), Some(Action::Idle));
}

#[test]
fn apply_and_save_cycle_leaves_a_clean_table() {
    let mut table = Config::empty();
    let mut files = HashMap::new();
    add(&mut table, "build", "cargo build", false).unwrap();
    add(&mut table, "t", "cargo test", false).unwrap();
    table.mark_saved();
    assert!(table.is_changed());
    assert_eq!(apply(&mut table, &mut files), Ok(()));
    assert!(table.is_changed());
    table.mark_saved();
    assert!(!table.is_changed());
    assert_eq!(
        actions(&table),
        vec![("build".to_string(), Action::Idle), ("t".to_string(), Action::Idle)]
    );
    assert_eq!(files.len(), 2);
    assert_eq!(files.get("build.sh"), Some(&"#!/bin/sh\nexec cargo build \"$@\"".to_string()));
    assert!(table.get("build").unwrap().link.is_present());
}

#[test]
fn listing_rows_show_description_or_command() {
    let table = Config::new(
        &vec![entry("build", None, "cargo build"), entry("t", Some("run tests"), "cargo test")],
        &none(),
    );
    assert_eq!(
        table.alias_rows(),
        vec![names(&["Alias", "Description"]), names(&["build", "cargo build"]), names(&["t", "run tests"])]
    );
    assert_eq!(Config::empty().alias_rows(), vec![names(&["Alias", "Description"])]);
}

#[test]
fn listing_is_a_rounded_table() {
    let table = Config::new(
        &vec![entry("build", None, "cargo build"), entry("t", Some("run tests"), "cargo test")],
        &none(),
    );
    let expected = "\
\u{256d}\u{2500}\u{2500}\u{2500}\u{2500}\u{2500}\u{2500}\u{2500}\u{252c}\u{2500}\u{2500}\u{2500}\u{2500}\u{2500}\u{2500}\u{2500}\u{2500}\u{2500}\u{2500}\u{2500}\u{2500}\u{2500}\u{256e}
\u{2502} Alias \u{2502} Description \u{2502}
\u{251c}\u{2500}\u{2500}\u{2500}\u{2500}\u{2500}\u{2500}\u{2500}\u{253c}\u{2500}\u{2500}\u{2500}\u{2500}\u{2500}\u{2500}\u{2500}\u{2500}\u{2500}\u{2500}\u{2500}\u{2500}\u{2500}\u{2524}
\u{2502} build \u{2502} cargo build \u{2502}
\u{2502} t     \u{2502} run tests   \u{2502}
\u{2570}\u{2500}\u{2500}\u{2500}\u{2500}\u{2500}\u{2500}\u{2500}\u{2534}\u{2500}\u{2500}\u{2500}\u{2500}\u{2500}\u{2500}\u{2500}\u{2500}\u{2500}\u{2500}\u{2500}\u{2500}\u{2500}\u{256f}";
    assert_eq!(table.display_aliases(), Some(expected.to_string()));
}

#[test]
fn listing_of_an_empty_table_is_nothing() {
    assert_eq!(Config::empty().display_aliases(), None);
}

#[test]
fn listing_changes_nothing() {
    let mut table = Config::empty();
    add(&mut table, "a", "one", false).unwrap();
    let before = actions(&table);
    let _ = table.display_aliases();
    let _ = table.alias_rows();
    assert_eq!(actions(&table), before);
    assert!(table.is_changed());
}
