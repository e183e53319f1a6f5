use lsm::cli::Command;
use lsm::config::{Data, Home, System};
use lsm::os::Arch;
use lsm::sync::{Action, Event, Failure, Reconciler, Stage};
use lsm::table::Table;

const FLAGS: &str = "-Sy --answerclean y --answerdiff n --answeredit n --answerupgrade y --removemake --cleanafter --noconfirm";

fn owned(items: &[&str]) -> Vec<String> {
    items.iter().map(|s| s.to_string()).collect()
}

fn arch() -> Arch {
    match Arch::select(&vec![true, false]) {
        Ok(os) => os,
        Err(_) => panic!("a package manager was marked as present"),
    }
}

fn home(groups: &[&str], shell: &str, links: &[(&str, &str)]) -> Home {
    let mut table = Table::new();
    for (source, destination) in links {
        table.insert(source.to_string(), destination.to_string());
    }
    Home { groups: owned(groups), default_shell: shell.to_string(), links: table }
}

fn data(packages: &[&str], users: Vec<(&str, Home)>) -> Data {
    let mut table = Table::new();
    for (name, home) in users {
        table.insert(name.to_string(), home);
    }
    Data { system: System { packages: owned(packages) }, users: table }
}

fn sync(system: bool, home: bool) -> Command {
    Command::Sync { config_path: "config.yaml".to_string(), system, home }
}

/// Starts a run and takes it to the point where the description is known.
fn parsed(system: bool, home: bool, data: Data) -> (Reconciler<Arch>, Action) {
    let (run, action) = Reconciler::new(arch(), sync(system, home));
    match action {
        Action::ReadConfig(path) => assert_eq!(path, "config.yaml"),
        _ => panic!("a run starts by reading the description"),
    }
    let (run, action) = run.step(Event::ConfigRead(Some("text".to_string())));
    match action {
        Action::ParseConfig(text) => assert_eq!(text, "text"),
        _ => panic!("a description that was read is parsed"),
    }
    assert_eq!(run.stage(), Stage::Parsing);
    run.step(Event::ConfigParsed(Ok(data)))
}

fn command_of(action: &Action) -> &str {
    match action {
        Action::Run(command) => command,
        _ => panic!("a command was expected"),
    }
}

fn failure_of(action: &Action) -> (Failure, &str) {
    match action {
        Action::Fail { failure, message } => (*failure, message),
        _ => panic!("a failure was expected"),
    }
}

#[test]
fn run_starts_by_reading_the_description() {
    let (run, action) = Reconciler::new(arch(), sync(true, true));
    assert!(matches!(action, Action::ReadConfig(ref path) if path == "config.yaml"));
    assert_eq!(run.stage(), Stage::Reading);
    assert!(!run.is_finished());
    assert_eq!(action.exit_code(), None);
}

#[test]
fn unreadable_description_ends_the_run_with_code_one() {
    let (run, _) = Reconciler::new(arch(), sync(true, true));
    let (run, action) = run.step(Event::ConfigRead(None));
    assert_eq!(
        failure_of(&action),
        (Failure::ConfigUnreadable, "Could not read file `config.yaml`")
    );
    assert_eq!(action.exit_code(), Some(1));
    assert!(run.is_finished());
    let (run, action) = run.step(Event::ConfigParsed(Ok(data(&[], vec![]))));
    assert_eq!(failure_of(&action).0, Failure::UnexpectedEvent);
    assert!(run.is_finished());
}

#[test]
fn malformed_description_ends_the_run_with_the_cause() {
    let (run, _) = Reconciler::new(arch(), sync(true, false));
    let (run, _) = run.step(Event::ConfigRead(Some("system: [".to_string())));
    let cause = "did not find expected node content at line 2 column 1";
    let (run, action) = run.step(Event::ConfigParsed(Err(cause.to_string())));
    let (failure, message) = failure_of(&action);
    assert_eq!(failure, Failure::ConfigInvalid);
    assert_eq!(
        message,
        "Unable to load data from `config.yaml` did not find expected node content at line 2 column 1"
    );
    assert!(message.contains(cause));
    assert_eq!(action.exit_code(), Some(1));
    assert!(run.is_finished());
}

#[test]
fn nothing_selected_fails_without_a_command() {
    let (run, action) = parsed(false, false, data(&[], vec![]));
    assert_eq!(
        failure_of(&action),
        (Failure::NothingSelected, "Neither system sync nor home sync are selected")
    );
    assert_eq!(action.exit_code(), Some(1));
    assert!(run.is_finished());
}

#[test]
fn nothing_selected_fails_whatever_the_description_asks_for() {
    let users = vec![("alice", home(&["wheel"], "/bin/bash", &[]))];
    let (run, action) = parsed(false, false, data(&["git"], users));
    assert_eq!(failure_of(&action).0, Failure::NothingSelected);
    assert!(run.is_finished());
}

#[test]
fn system_only_issues_one_install_command() {
    let (run, action) = parsed(true, false, data(&["git", "vim"], vec![]));
    assert_eq!(command_of(&action), format!("yay {} git vim", FLAGS));
    assert_eq!(run.stage(), Stage::Installing);
    let (run, action) = run.step(Event::Exited(true));
    assert!(matches!(action, Action::Succeed));
    assert_eq!(action.exit_code(), Some(0));
    assert!(run.is_finished());
}

#[test]
fn system_only_leaves_the_users_alone() {
    let users = vec![("alice", home(&["wheel"], "/bin/bash", &[]))];
    let (run, action) = parsed(true, false, data(&["git", "vim"], users));
    assert_eq!(command_of(&action), format!("yay {} git vim", FLAGS));
    let (run, action) = run.step(Event::Exited(true));
    assert!(matches!(action, Action::Succeed));
    assert!(run.is_finished());
}

#[test]
fn failed_install_fails_the_run() {
    let users = vec![("alice", home(&["wheel"], "/bin/bash", &[]))];
    let (run, _) = parsed(true, true, data(&["git", "vim"], users));
    let (run, action) = run.step(Event::Exited(false));
    assert_eq!(
        failure_of(&action),
        (Failure::InstallFailed, "Could not install system packages")
    );
    assert_eq!(action.exit_code(), Some(1));
    assert!(run.is_finished());
}

#[test]
fn command_that_cannot_start_fails_the_run() {
    let (run, _) = parsed(true, true, data(&["git"], vec![]));
    let (run, action) = run.step(Event::NotStarted("No such file or directory".to_string()));
    assert_eq!(
        failure_of(&action),
        (Failure::CommandNotStarted, "No such file or directory")
    );
    assert!(run.is_finished());
}

#[test]
fn missing_user_is_created_and_not_updated() {
    let users = vec![("alice", home(&["wheel"], "/bin/bash", &[("~/.vimrc", "dotfiles/vimrc")]))];
    let (run, action) = parsed(false, true, data(&[], users));
    assert_eq!(command_of(&action), "id -u alice");
    assert_eq!(run.stage(), Stage::Checking { user: 0 });
    let (run, action) = run.step(Event::Exited(false));
    assert_eq!(command_of(&action), "useradd -m -G wheel -s /bin/bash alice");
    assert_eq!(run.stage(), Stage::Applying { user: 0, existed: false });
    let (run, action) = run.step(Event::Exited(true));
    match &action {
        Action::ReportLinks(links) => {
            assert_eq!(links.len(), 1);
            assert_eq!(links.name(0), "~/.vimrc");
            assert_eq!(links.value(0), "dotfiles/vimrc");
        }
        _ => panic!("the links are reported after the user"),
    }
    assert_eq!(run.stage(), Stage::Reporting { user: 0 });
    let (run, action) = run.step(Event::Reported);
    assert!(matches!(action, Action::Succeed));
    assert!(run.is_finished());
}

#[test]
fn existing_user_is_updated_and_not_created() {
    let users = vec![("alice", home(&["wheel", "docker"], "/bin/zsh", &[]))];
    let (run, action) = parsed(false, true, data(&[], users));
    assert_eq!(command_of(&action), "id -u alice");
    let (run, action) = run.step(Event::Exited(true));
    assert_eq!(command_of(&action), "usermod -G wheel,docker -s /bin/zsh alice");
    assert_eq!(run.stage(), Stage::Applying { user: 0, existed: true });
}

#[test]
fn users_are_taken_in_order_after_the_packages() {
    let users = vec![
        ("alice", home(&["wheel"], "/bin/bash", &[])),
        ("bob", home(&[], "/bin/sh", &[])),
    ];
    let (run, action) = parsed(true, true, data(&["git"], users));
    assert_eq!(command_of(&action), format!("yay {} git", FLAGS));
    let (run, action) = run.step(Event::Exited(true));
    assert_eq!(command_of(&action), "id -u alice");
    let (run, action) = run.step(Event::Exited(true));
    assert_eq!(command_of(&action), "usermod -G wheel -s /bin/bash alice");
    let (run, action) = run.step(Event::Exited(true));
    assert!(matches!(action, Action::ReportLinks(ref links) if links.len() == 0));
    let (run, action) = run.step(Event::Reported);
    assert_eq!(command_of(&action), "id -u bob");
    let (run, action) = run.step(Event::Exited(false));
    assert_eq!(command_of(&action), "useradd -m -G  -s /bin/sh bob");
    let (run, action) = run.step(Event::Exited(true));
    assert!(matches!(action, Action::ReportLinks(_)));
    let (run, action) = run.step(Event::Reported);
    assert!(matches!(action, Action::Succeed));
    assert!(run.is_finished());
}

#[test]
fn home_only_without_users_succeeds_at_once() {
    let (run, action) = parsed(false, true, data(&["git"], vec![]));
    assert!(matches!(action, Action::Succeed));
    assert!(run.is_finished());
}

#[test]
fn failed_creation_leaves_the_other_users_alone() {
    let users = vec![
        ("alice", home(&["wheel"], "/bin/bash", &[])),
        ("bob", home(&[], "/bin/sh", &[])),
    ];
    let (run, _) = parsed(false, true, data(&[], users));
    let (run, _) = run.step(Event::Exited(false));
    let (run, action) = run.step(Event::Exited(false));
    assert_eq!(failure_of(&action), (Failure::UserCreateFailed, "Could not create user alice"));
    assert_eq!(action.exit_code(), Some(1));
    assert!(run.is_finished());
}

#[test]
fn failed_update_fails_the_run() {
    let users = vec![("alice", home(&["wheel"], "/bin/bash", &[]))];
    let (run, _) = parsed(false, true, data(&[], users));
    let (run, _) = run.step(Event::Exited(true));
    let (run, action) = run.step(Event::Exited(false));
    assert_eq!(failure_of(&action), (Failure::UserUpdateFailed, "Could not update user alice"));
    assert!(run.is_finished());
}

#[test]
fn lookup_that_cannot_start_fails_the_run() {
    let users = vec![("alice", home(&["wheel"], "/bin/bash", &[]))];
    let (run, _) = parsed(false, true, data(&[], users));
    let (run, action) = run.step(Event::NotStarted("id: not found".to_string()));
    assert_eq!(failure_of(&action), (Failure::CommandNotStarted, "id: not found"));
    assert!(run.is_finished());
}

#[test]
fn event_that_answers_nothing_ends_the_run() {
    let (run, _) = Reconciler::new(arch(), sync(true, true));
    let (run, action) = run.step(Event::Exited(true));
    assert_eq!(failure_of(&action), (Failure::UnexpectedEvent, "Unexpected event"));
    assert!(run.is_finished());
}

#[test]
fn every_failure_has_exit_code_one() {
    for failure in [
        Failure::ConfigUnreadable,
        Failure::ConfigInvalid,
        Failure::NothingSelected,
        Failure::InstallFailed,
        Failure::UserCreateFailed,
        Failure::UserUpdateFailed,
        Failure::CommandNotStarted,
        Failure::UnexpectedEvent,
    ] {
        assert_eq!(failure.exit_code(), 1);
    }
}

#[test]
fn empty_description_asks_for_nothing() {
    let empty = Data::empty();
    assert!(empty.system.packages.is_empty());
    assert_eq!(empty.users.len(), 0);
}

#[test]
fn run_over_three_users_asks_for_at_most_eleven_actions() {
    let users = vec![
        ("alice", home(&["wheel"], "/bin/bash", &[])),
        ("bob", home(&[], "/bin/sh", &[])),
        ("carol", home(&["audio"], "/bin/zsh", &[])),
    ];
    let (mut run, mut action) = parsed(true, true, data(&["git"], users));
    let mut asked = 0;
    let mut created = 0;
    let mut updated = 0;
    while !run.is_finished() {
        let event = match &action {
            Action::Run(command) if command.starts_with("id -u ") => {
                Event::Exited(command != "id -u bob")
            }
            Action::Run(command) => {
                if command.starts_with("useradd ") {
                    created += 1;
                }
                if command.starts_with("usermod ") {
                    updated += 1;
                }
                Event::Exited(true)
            }
            Action::ReportLinks(_) => Event::Reported,
            _ => panic!("the run is not over"),
        };
        (run, action) = run.step(event);
        asked += 1;
    }
    assert!(matches!(action, Action::Succeed));
    assert_eq!(asked, 3 * 3 + 1);
    assert!(asked <= 3 * 3 + 2);
    assert_eq!(created, 1);
    assert_eq!(updated, 2);
}
