//! What a distribution backend can do, as the command lines it issues.

use crate::text::{
    fields, free_of, join, joined, lemma_fields_of_join, lemma_joined_free_of,
};
use vstd::prelude::*;

verus! {

/// Why no backend could be set up.
#[derive(Debug, Clone, Copy, PartialEq, Eq, Structural)]
pub enum InitError {
    /// None of the package managers that the backend supports is installed.
    NoPackageManager,
}

impl InitError {
    /// The text shown to the user.
    pub fn message(&self) -> (text: String)
        ensures
            text@ == "Could not find the executable for the supported package manager"@,
    {
        String::from_str("Could not find the executable for the supported package manager")
    }
}

/// The stock command that asks whether `user` exists: `id -u <user>`. It
/// exits successfully exactly when the user exists.
pub open spec fn stock_user_exists(user: Seq<char>) -> Seq<char> {
    "id -u "@ + user
}

/// The stock command that creates `user` with a home directory, the given
/// supplementary groups and login shell:
/// `useradd -m -G <groups joined by commas> -s <shell> <user>`.
pub open spec fn stock_user_create(
    user: Seq<char>,
    groups: Seq<Seq<char>>,
    default_shell: Seq<char>,
) -> Seq<char> {
    "useradd -m -G "@ + joined(groups, ","@) + " -s "@ + default_shell + " "@ + user
}

/// The stock command that replaces the supplementary groups and the login
/// shell of `user`: `usermod -G <groups joined by commas> -s <shell> <user>`.
pub open spec fn stock_user_update(
    user: Seq<char>,
    groups: Seq<Seq<char>>,
    default_shell: Seq<char>,
) -> Seq<char> {
    "usermod -G "@ + joined(groups, ","@) + " -s "@ + default_shell + " "@ + user
}

/// The stock command that enables a service of the invoking user.
pub open spec fn stock_service_enable(service: Seq<char>) -> Seq<char> {
    "systemctl --user enable "@ + service
}

/// The stock command that starts a service of the invoking user.
pub open spec fn stock_service_start(service: Seq<char>) -> Seq<char> {
    "systemctl --user start "@ + service
}

/// The words of the stock command that creates a user, and of the one that
/// updates a user, where neither the user's name, nor the shell, nor any
/// group holds a space: the groups, joined by commas, are the one word that
/// follows `-G`, and the shell is the word that follows `-s`. With no group
/// the word after `-G` is empty.
pub proof fn lemma_user_command_words(
    user: Seq<char>,
    groups: Seq<Seq<char>>,
    default_shell: Seq<char>,
)
    requires
        free_of(user, ' '),
        free_of(default_shell, ' '),
        forall|k: int| 0 <= k < groups.len() ==> free_of(#[trigger] groups[k], ' '),
    ensures
        fields(stock_user_create(user, groups, default_shell), ' ') == seq![
            "useradd"@,
            "-m"@,
            "-G"@,
            joined(groups, ","@),
            "-s"@,
            default_shell,
            user,
        ],
        fields(stock_user_update(user, groups, default_shell), ' ') == seq![
            "usermod"@,
            "-G"@,
            joined(groups, ","@),
            "-s"@,
            default_shell,
            user,
        ],
        groups.len() == 0 ==> joined(groups, ","@) == Seq::<char>::empty(),
{
    reveal_strlit("useradd -m -G ");
    reveal_strlit("usermod -G ");
    reveal_strlit(" -s ");
    reveal_strlit(" ");
    reveal_strlit(",");
    reveal_strlit("useradd");
    reveal_strlit("usermod");
    reveal_strlit("-m");
    reveal_strlit("-G");
    reveal_strlit("-s");
    let list = joined(groups, ","@);
    lemma_joined_free_of(groups, ","@, ' ');
    let created = seq!["useradd"@, "-m"@, "-G"@, list, "-s"@, default_shell, user];
    let updated = seq!["usermod"@, "-G"@, list, "-s"@, default_shell, user];
    reveal_with_fuel(joined, 8);
    assert(stock_user_create(user, groups, default_shell) =~= joined(created, seq![' ']));
    assert(stock_user_update(user, groups, default_shell) =~= joined(updated, seq![' ']));
    lemma_fields_of_join(created, ' ');
    lemma_fields_of_join(updated, ' ');
}

/// Builds [`stock_user_exists`].
pub fn user_exists_line(user: &str) -> (command: String)
    ensures
        command@ == stock_user_exists(user@),
{
    let mut command = String::from_str("id -u ");
    command.append(user);
    command
}

/// Builds [`stock_user_create`].
pub fn user_create_line(user: &str, groups: &Vec<String>, default_shell: &str) -> (command: String)
    ensures
        command@ == stock_user_create(user@, groups.deep_view(), default_shell@),
{
    let mut command = String::from_str("useradd -m -G ");
    let groups = join(groups, ",");
    command.append(groups.as_str());
    command.append(" -s ");
    command.append(default_shell);
    command.append(" ");
    command.append(user);
    command
}

/// Builds [`stock_user_update`].
pub fn user_update_line(user: &str, groups: &Vec<String>, default_shell: &str) -> (command: String)
    ensures
        command@ == stock_user_update(user@, groups.deep_view(), default_shell@),
{
    let mut command = String::from_str("usermod -G ");
    let groups = join(groups, ",");
    command.append(groups.as_str());
    command.append(" -s ");
    command.append(default_shell);
    command.append(" ");
    command.append(user);
    command
}

/// Builds [`stock_service_enable`].
pub fn service_enable_line(service: &str) -> (command: String)
    ensures
        command@ == stock_service_enable(service@),
{
    let mut command = String::from_str("systemctl --user enable ");
    command.append(service);
    command
}

/// Builds [`stock_service_start`].
pub fn service_start_line(service: &str) -> (command: String)
    ensures
        command@ == stock_service_start(service@),
{
    let mut command = String::from_str("systemctl --user start ");
    command.append(service);
    command
}

/// A distribution backend. Each capability is a command line: the method
/// builds it, and the spec function of the same meaning says which line that
/// is. The spec functions of the user and service capabilities default to the
/// stock commands; a backend that needs another command overrides the spec
/// function together with the method.
pub trait OperatingSystem: Sized {
    /// The name of the package manager that this backend drives.
    spec fn manager(&self) -> Seq<char>;

    /// The command that installs `packages`.
    spec fn install_command(&self, packages: Seq<Seq<char>>) -> Seq<char>;

    /// The command that asks whether `user` exists; it exits successfully
    /// exactly when the user exists.
    open spec fn user_exists_command(&self, user: Seq<char>) -> Seq<char> {
        stock_user_exists(user)
    }

    /// The command that creates `user`.
    open spec fn user_create_command(
        &self,
        user: Seq<char>,
        groups: Seq<Seq<char>>,
        default_shell: Seq<char>,
    ) -> Seq<char> {
        stock_user_create(user, groups, default_shell)
    }

    /// The command that brings an existing `user` in line.
    open spec fn user_update_command(
        &self,
        user: Seq<char>,
        groups: Seq<Seq<char>>,
        default_shell: Seq<char>,
    ) -> Seq<char> {
        stock_user_update(user, groups, default_shell)
    }

    /// The command that enables `service`.
    open spec fn service_enable_command(&self, service: Seq<char>) -> Seq<char> {
        stock_service_enable(service)
    }

    /// The command that starts `service`.
    open spec fn service_start_command(&self, service: Seq<char>) -> Seq<char> {
        stock_service_start(service)
    }

    /// Sets the backend up on this machine.
    fn init() -> (made: Result<Self, InitError>);

    /// The name of the package manager in use.
    fn package_manager(&self) -> (name: &'static str)
        ensures
            name@ == self.manager(),
    ;

    /// The command line that installs `packages`.
    fn install_packages(&self, packages: &Vec<String>) -> (command: String)
        ensures
            command@ == self.install_command(packages.deep_view()),
    ;

    /// The command line that asks whether `user` exists.
    fn user_exists(&self, user: &str) -> (command: String)
        ensures
            command@ == self.user_exists_command(user@),
    ;

    /// The command line that creates `user`.
    fn user_create(&self, user: &str, groups: &Vec<String>, default_shell: &str) -> (command:
        String)
        ensures
            command@ == self.user_create_command(user@, groups.deep_view(), default_shell@),
    ;

    /// The command line that brings an existing `user` in line.
    fn user_update(&self, user: &str, groups: &Vec<String>, default_shell: &str) -> (command:
        String)
        ensures
            command@ == self.user_update_command(user@, groups.deep_view(), default_shell@),
    ;

    /// The command line that enables `service`.
    fn service_enable(&self, service: &str) -> (command: String)
        ensures
            command@ == self.service_enable_command(service@),
    ;

    /// The command line that starts `service`.
    fn service_start(&self, service: &str) -> (command: String)
        ensures
            command@ == self.service_start_command(service@),
    ;
}

} // verus!
