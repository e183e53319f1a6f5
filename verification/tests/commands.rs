use lsm::os::Arch;
use lsm::traits::{
    service_enable_line, service_start_line, user_create_line, user_exists_line, user_update_line,
    InitError, OperatingSystem,
};
use lsm::utils::Invocation;

const FLAGS: &str = "-Sy --answerclean y --answerdiff n --answeredit n --answerupgrade y --removemake --cleanafter --noconfirm";

fn owned(items: &[&str]) -> Vec<String> {
    items.iter().map(|s| s.to_string()).collect()
}

fn arch_with(flags: &[bool]) -> Arch {
    match Arch::select(&flags.to_vec()) {
        Ok(os) => os,
        Err(_) => panic!("a package manager was marked as present"),
    }
}

#[test]
fn select_takes_the_first_manager_that_is_present() {
    assert_eq!(arch_with(&[true, true]).package_manager(), "yay");
    assert_eq!(arch_with(&[true, false]).package_manager(), "yay");
    assert_eq!(arch_with(&[false, true]).package_manager(), "paru");
}

#[test]
fn select_fails_without_a_manager() {
    match Arch::select(&vec![false, false]) {
        Ok(_) => panic!("no package manager was marked as present"),
        Err(e) => {
            assert_eq!(e, InitError::NoPackageManager);
            assert_eq!(
                e.message(),
                "Could not find the executable for the supported package manager"
            );
        }
    }
}

#[test]
fn init_finds_a_supported_manager_or_none() {
    match Arch::init() {
        Ok(os) => assert!(["yay", "paru"].contains(&os.package_manager())),
        Err(e) => assert_eq!(e, InitError::NoPackageManager),
    }
}

#[test]
fn install_command_ends_with_the_packages_after_the_flags() {
    let os = arch_with(&[true, false]);
    let command = os.install_packages(&owned(&["git", "vim"]));
    assert_eq!(command, format!("yay {} git vim", FLAGS));
    let invocation = Invocation::parse(&command);
    assert_eq!(invocation.program, "yay");
    let mut expected: Vec<String> = FLAGS.split(' ').map(|s| s.to_string()).collect();
    expected.push("git".to_string());
    expected.push("vim".to_string());
    assert_eq!(invocation.args, expected);
}

#[test]
fn install_command_with_the_second_manager() {
    let os = arch_with(&[false, true]);
    assert_eq!(
        os.install_packages(&owned(&["base-devel"])),
        format!("paru {} base-devel", FLAGS)
    );
}

#[test]
fn install_command_without_packages_ends_with_a_space() {
    let os = arch_with(&[true, true]);
    let command = os.install_packages(&owned(&[]));
    assert_eq!(command, format!("yay {} ", FLAGS));
    let invocation = Invocation::parse(&command);
    assert_eq!(invocation.args.last().map(|s| s.as_str()), Some(""));
}

#[test]
fn user_exists_command() {
    assert_eq!(user_exists_line("alice"), "id -u alice");
    assert_eq!(arch_with(&[true, true]).user_exists("alice"), "id -u alice");
}

#[test]
fn user_create_command() {
    assert_eq!(
        user_create_line("alice", &owned(&["wheel"]), "/bin/bash"),
        "useradd -m -G wheel -s /bin/bash alice"
    );
    assert_eq!(
        user_create_line("bob", &owned(&["wheel", "audio", "video"]), "/bin/zsh"),
        "useradd -m -G wheel,audio,video -s /bin/zsh bob"
    );
    assert_eq!(
        arch_with(&[true, true]).user_create("alice", &owned(&["wheel"]), "/bin/bash"),
        "useradd -m -G wheel -s /bin/bash alice"
    );
}

#[test]
fn user_create_command_without_groups() {
    let command = user_create_line("carol", &owned(&[]), "/bin/sh");
    assert_eq!(command, "useradd -m -G  -s /bin/sh carol");
    let invocation = Invocation::parse(&command);
    assert_eq!(invocation.program, "useradd");
    assert_eq!(invocation.args, owned(&["-m", "-G", "", "-s", "/bin/sh", "carol"]));
}

#[test]
fn user_update_command() {
    assert_eq!(
        user_update_line("alice", &owned(&["wheel", "docker"]), "/bin/bash"),
        "usermod -G wheel,docker -s /bin/bash alice"
    );
    assert_eq!(user_update_line("alice", &owned(&[]), "/bin/bash"), "usermod -G  -s /bin/bash alice");
    assert_eq!(
        arch_with(&[true, true]).user_update("alice", &owned(&["wheel"]), "/bin/bash"),
        "usermod -G wheel -s /bin/bash alice"
    );
}

#[test]
fn service_commands() {
    assert_eq!(service_enable_line("syncthing"), "systemctl --user enable syncthing");
    assert_eq!(service_start_line("syncthing"), "systemctl --user start syncthing");
    let os = arch_with(&[true, true]);
    assert_eq!(os.service_enable("mpd"), "systemctl --user enable mpd");
    assert_eq!(os.service_start("mpd"), "systemctl --user start mpd");
}

#[test]
fn parse_takes_the_first_piece_as_the_program() {
    let invocation = Invocation::parse("id -u alice");
    assert_eq!(invocation.program, "id");
    assert_eq!(invocation.args, owned(&["-u", "alice"]));
}

#[test]
fn parse_of_a_single_word_has_no_arguments() {
    let invocation = Invocation::parse("ls");
    assert_eq!(invocation.program, "ls");
    assert!(invocation.args.is_empty());
}

#[test]
fn parse_of_the_empty_line_names_an_empty_program() {
    let invocation = Invocation::parse("");
    assert_eq!(invocation.program, "");
    assert!(invocation.args.is_empty());
}

#[test]
fn parse_splits_an_argument_that_holds_a_space() {
    let command = user_exists_line("john doe");
    let invocation = Invocation::parse(&command);
    assert_eq!(invocation.program, "id");
    assert_eq!(invocation.args, owned(&["-u", "john", "doe"]));
}

#[test]
fn parse_keeps_empty_arguments_between_spaces() {
    let invocation = Invocation::parse("a  b ");
    assert_eq!(invocation.program, "a");
    assert_eq!(invocation.args, owned(&["", "b", ""]));
}
