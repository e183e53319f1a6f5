//! The Arch Linux backend.

use crate::constants::{
    arch_package_manager, arch_supported_package_managers, ARCH_PACKAGE_MANAGER_COUNT,
};
use crate::text::{
    fields, free_of, join, joined, lemma_fields_of_concat, lemma_fields_of_join,
    lemma_fields_of_word,
};
use crate::traits::{
    service_enable_line, service_start_line, user_create_line, user_exists_line, user_update_line,
    InitError, OperatingSystem,
};
use vstd::prelude::*;

verus! {

/// `std::path::PathBuf`, carried through unread.
#[verifier::external_type_specification]
#[verifier::external_body]
pub struct ExPathBuf(std::path::PathBuf);

/// `quale::which`: looks for an executable called `name` in the directories
/// of the search path and gives the place of the first one found. The answer
/// depends on the environment and on the disk, so nothing is claimed of it.
#[verifier::external_body]
fn which(name: &str) -> (found: Option<std::path::PathBuf>) {
    quale::which(name)
}

/// The flags that make an installation run without asking: synchronise,
/// answer every question beforehand, remove build dependencies, clean up
/// afterwards, ask for no confirmation.
pub open spec fn install_flags() -> Seq<char> {
    " -Sy --answerclean y --answerdiff n --answeredit n --answerupgrade y --removemake --cleanafter --noconfirm "@
}

/// The words of [`install_flags`], in order.
pub open spec fn install_flag_words() -> Seq<Seq<char>> {
    seq![
        "-Sy"@,
        "--answerclean"@,
        "y"@,
        "--answerdiff"@,
        "n"@,
        "--answeredit"@,
        "n"@,
        "--answerupgrade"@,
        "y"@,
        "--removemake"@,
        "--cleanafter"@,
        "--noconfirm"@,
    ]
}

/// The flags are their words with single spaces between them, and one space
/// on either side; no word holds a space.
pub proof fn lemma_install_flags_are_words()
    ensures
        install_flags() == seq![' '] + joined(install_flag_words(), seq![' ']) + seq![' '],
        forall|k: int|
            0 <= k < install_flag_words().len() ==> free_of(#[trigger] install_flag_words()[k], ' '),
{
    reveal_strlit(
        " -Sy --answerclean y --answerdiff n --answeredit n --answerupgrade y --removemake --cleanafter --noconfirm ",
    );
    reveal_strlit("-Sy");
    reveal_strlit("--answerclean");
    reveal_strlit("y");
    reveal_strlit("--answerdiff");
    reveal_strlit("n");
    reveal_strlit("--answeredit");
    reveal_strlit("--answerupgrade");
    reveal_strlit("--removemake");
    reveal_strlit("--cleanafter");
    reveal_strlit("--noconfirm");
    reveal_with_fuel(joined, 13);
    assert(install_flags() =~= seq![' '] + joined(install_flag_words(), seq![' ']) + seq![' ']);
}

/// Whether `flags` marks some candidate as present.
pub open spec fn any_present(flags: Seq<bool>) -> bool {
    exists|rank: int| 0 <= rank < flags.len() && flags[rank]
}

/// Whether `rank` is the first candidate that `flags` marks as present.
pub open spec fn is_first_present(flags: Seq<bool>, rank: int) -> bool {
    &&& 0 <= rank < flags.len()
    &&& flags[rank]
    &&& forall|earlier: int| 0 <= earlier < rank ==> !flags[earlier]
}

/// The rank of the first candidate marked as present, if there is one.
pub fn first_present(flags: &Vec<bool>) -> (found: Option<usize>)
    ensures
        found is Some <==> any_present(flags@),
        found matches Some(rank) ==> is_first_present(flags@, rank as int),
{
    let mut rank: usize = 0;
    while rank < flags.len()
        invariant
            rank <= flags.len(),
            forall|earlier: int| 0 <= earlier < rank ==> !flags@[earlier],
        decreases flags.len() - rank,
    {
        if flags[rank] {
            return Some(rank);
        }
        rank += 1;
    }
    None
}

/// The Arch Linux backend: it installs packages with the package manager that
/// was found when it was set up.
pub struct Arch {
    package_manager: &'static str,
}

impl Arch {
    /// Whether the package manager in use is one of the supported ones.
    pub open spec fn supported(&self) -> bool {
        exists|rank: int|
            0 <= rank < ARCH_PACKAGE_MANAGER_COUNT && self.manager() == arch_package_manager(rank)
    }

    /// The backend for a machine on which the supported package managers are
    /// present as `flags` says, one flag for each in order of preference: it
    /// uses the first that is present, and there is none without one.
    pub fn select(flags: &Vec<bool>) -> (made: Result<Arch, InitError>)
        requires
            flags.len() == ARCH_PACKAGE_MANAGER_COUNT,
        ensures
            made is Ok <==> any_present(flags@),
            made matches Ok(os) ==> exists|rank: int|
                is_first_present(flags@, rank) && os.manager() == arch_package_manager(rank),
            made matches Ok(os) ==> os.supported(),
            made matches Err(e) ==> e == InitError::NoPackageManager,
    {
        let names = arch_supported_package_managers();
        match first_present(flags) {
            Some(rank) => {
                let os = Arch { package_manager: names[rank] };
                assert(is_first_present(flags@, rank as int) && os.manager()
                    == arch_package_manager(rank as int));
                Ok(os)
            },
            None => Err(InitError::NoPackageManager),
        }
    }
}

impl OperatingSystem for Arch {
    closed spec fn manager(&self) -> Seq<char> {
        self.package_manager@
    }

    open spec fn install_command(&self, packages: Seq<Seq<char>>) -> Seq<char> {
        self.manager() + install_flags() + joined(packages, " "@)
    }

    /// Looks for each supported package manager on the search path and uses
    /// the first that is there.
    fn init() -> (made: Result<Arch, InitError>)
        ensures
            made matches Ok(os) ==> os.supported(),
            made matches Err(e) ==> e == InitError::NoPackageManager,
    {
        let names = arch_supported_package_managers();
        let mut flags: Vec<bool> = Vec::new();
        let mut rank: usize = 0;
        while rank < names.len()
            invariant
                rank <= names.len(),
                flags.len() == rank,
            decreases names.len() - rank,
        {
            let found = which(names[rank]);
            flags.push(found.is_some());
            rank += 1;
        }
        Arch::select(&flags)
    }

    fn package_manager(&self) -> (name: &'static str) {
        self.package_manager
    }

    fn install_packages(&self, packages: &Vec<String>) -> (command: String) {
        let packages = join(packages, " ");
        let mut command = String::from_str(self.package_manager);
        command.append(
            " -Sy --answerclean y --answerdiff n --answeredit n --answerupgrade y --removemake --cleanafter --noconfirm ",
        );
        command.append(packages.as_str());
        command
    }

    fn user_exists(&self, user: &str) -> (command: String) {
        user_exists_line(user)
    }

    fn user_create(&self, user: &str, groups: &Vec<String>, default_shell: &str) -> (command:
        String) {
        user_create_line(user, groups, default_shell)
    }

    fn user_update(&self, user: &str, groups: &Vec<String>, default_shell: &str) -> (command:
        String) {
        user_update_line(user, groups, default_shell)
    }

    fn service_enable(&self, service: &str) -> (command: String) {
        service_enable_line(service)
    }

    fn service_start(&self, service: &str) -> (command: String) {
        service_start_line(service)
    }
}

/// The words of an installation command are the package manager, the words
/// of the flags, and the pieces of the joined package names. Where there is
/// at least one package and no name holds a space, those pieces are the
/// package names themselves, in the order given.
pub proof fn lemma_install_words(os: Arch, packages: Seq<Seq<char>>)
    requires
        os.supported(),
    ensures
        fields(os.install_command(packages), ' ') == seq![os.manager()] + install_flag_words()
            + fields(joined(packages, " "@), ' '),
        packages.len() >= 1 && (forall|k: int|
            0 <= k < packages.len() ==> free_of(#[trigger] packages[k], ' ')) ==> fields(
            os.install_command(packages),
            ' ',
        ) == seq![os.manager()] + install_flag_words() + packages,
{
    reveal_strlit(" ");
    reveal_strlit("yay");
    reveal_strlit("paru");
    assert(" "@ =~= seq![' ']);
    let names = joined(packages, " "@);
    let words = joined(install_flag_words(), seq![' ']);
    lemma_install_flags_are_words();
    assert(os.install_command(packages) =~= os.manager() + seq![' '] + (words + seq![' ']
        + names));
    lemma_fields_of_concat(os.manager(), words + seq![' '] + names, ' ');
    lemma_fields_of_concat(words, names, ' ');
    lemma_fields_of_word(os.manager(), ' ');
    lemma_fields_of_join(install_flag_words(), ' ');
    assert(seq![os.manager()] + (install_flag_words() + fields(names, ' ')) =~= seq![os.manager()]
        + install_flag_words() + fields(names, ' '));
    if packages.len() >= 1 && (forall|k: int|
        0 <= k < packages.len() ==> free_of(#[trigger] packages[k], ' ')) {
        lemma_fields_of_join(packages, ' ');
    }
}

} // verus!
