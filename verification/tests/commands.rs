use cmdlink::cli::{Cli, Commands, LogLevel, Verbosity};
use cmdlink::config::{Config, Entry};
use cmdlink::error::Error;
use cmdlink::platform_binary::{Action, Link};

fn cli(subcommand: Commands) -> Cli {
    Cli { verbose: Verbosity { verbose: 0, quiet: 0 }, subcommand }
}

fn loaded() -> Config {
    Config::new(
        &vec![Entry { alias: "build".to_string(), description: None, cmd: "cargo build".to_string() }],
        &vec!["build".to_string()],
    )
}

#[test]
fn default_verbosity_is_info() {
    assert_eq!(Verbosity { verbose: 0, quiet: 0 }.as_level_filter(), Some(LogLevel::Info));
    assert_eq!(Verbosity { verbose: 1, quiet: 0 }.as_level_filter(), Some(LogLevel::Info));
}

#[test]
fn more_verbosity_is_debug_then_trace() {
    assert_eq!(Verbosity { verbose: 2, quiet: 0 }.as_level_filter(), Some(LogLevel::Debug));
    assert_eq!(Verbosity { verbose: 3, quiet: 0 }.as_level_filter(), Some(LogLevel::Trace));
    assert_eq!(Verbosity { verbose: 4, quiet: 0 }.as_level_filter(), Some(LogLevel::Trace));
    assert_eq!(Verbosity { verbose: 255, quiet: 0 }.as_level_filter(), Some(LogLevel::Trace));
}

#[test]
fn quiet_silences_everything() {
    assert_eq!(Verbosity { verbose: 0, quiet: 1 }.as_level_filter(), None);
    assert_eq!(Verbosity { verbose: 3, quiet: 2 }.as_level_filter(), None);
}

#[test]
fn add_command_creates_the_alias() {
    let mut table = loaded();
    let command = cli(Commands::Add {
        alias: "t".to_string(),
        description: Some("run tests".to_string()),
        cmd: "cargo test".to_string(),
        force: false,
    });
    assert_eq!(command.run(&mut table, &vec!["build".to_string()]), Ok(None));
    let values = table.get("t").unwrap();
    assert_eq!(values.link.action(), Action::Create);
    assert_eq!(values.description, Some("run tests".to_string()));
    assert!(!values.link.is_present());
    assert!(table.is_changed());
}

#[test]
fn add_command_reports_an_existing_alias() {
    let mut table = loaded();
    let command = cli(Commands::Add {
        alias: "build".to_string(),
        description: None,
        cmd: "make".to_string(),
        force: false,
    });
    assert_eq!(
        command.run(&mut table, &vec!["build".to_string()]),
        Err(Error::AliasExists("build".to_string()))
    );
    assert!(!table.is_changed());
    assert_eq!(table.get("build").unwrap().link.cmd(), "cargo build");
}

#[test]
fn forced_add_command_replaces_the_alias() {
    let mut table = loaded();
    let command = cli(Commands::Add {
        alias: "build".to_string(),
        description: None,
        cmd: "make".to_string(),
        force: true,
    });
    assert_eq!(command.run(&mut table, &vec!["build".to_string()]), Ok(None));
    let values = table.get("build").unwrap();
    assert_eq!(values.link.cmd(), "make");
    assert_eq!(values.link.action(), Action::Update);
    assert!(values.link.is_present());
}

#[test]
fn remove_command_schedules_the_removal() {
    let mut table = loaded();
    let command = cli(Commands::Remove { alias: "build".to_string() });
    assert_eq!(command.run(&mut table, &vec!["build".to_string()]), Ok(None));
    assert_eq!(table.get("build").unwrap().link.action(), Action::Remove);
    let mut table = loaded();
    let command = cli(Commands::Remove { alias: "missing".to_string() });
    assert_eq!(command.run(&mut table, &vec!["build".to_string()]), Ok(None));
    assert!(!table.is_changed());
}

#[test]
fn refresh_command_schedules_missing_links() {
    let mut table = loaded();
    assert_eq!(cli(Commands::Refresh).run(&mut table, &Vec::new()), Ok(None));
    assert_eq!(table.get("build").unwrap().link.action(), Action::Create);
    assert!(table.is_changed());
}

#[test]
fn display_command_gives_the_listing() {
    let mut table = loaded();
    let listing = cli(Commands::Display).run(&mut table, &Vec::new()).unwrap();
    assert_eq!(listing, table.display_aliases());
    let text = listing.unwrap();
    assert!(text.contains("\u{2502} build \u{2502} cargo build \u{2502}"));
    assert!(!table.is_changed());
    let mut empty = Config::empty();
    assert_eq!(cli(Commands::Display).run(&mut empty, &Vec::new()), Ok(None));
}
