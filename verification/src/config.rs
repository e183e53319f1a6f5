//! The desired state of a machine: its packages and its users.

use crate::table::Table;
use vstd::prelude::*;

verus! {

/// The packages that the machine is to have.
pub struct System {
    pub packages: Vec<String>,
}

/// What a user is to have: supplementary groups, a login shell, and links
/// from a source path to a destination path.
pub struct Home {
    pub groups: Vec<String>,
    pub default_shell: String,
    pub links: Table<String>,
}

/// The whole description: the system and, by name, the users.
pub struct Data {
    pub system: System,
    pub users: Table<Home>,
}

/// A [`Home`] as plain values.
pub struct HomeView {
    pub groups: Seq<Seq<char>>,
    pub default_shell: Seq<char>,
    pub links: Seq<(Seq<char>, Seq<char>)>,
}

/// A [`Data`] as plain values: the package names in order, and each user's
/// name with what the user is to have.
pub struct DataView {
    pub packages: Seq<Seq<char>>,
    pub users: Seq<(Seq<char>, HomeView)>,
}

impl View for Home {
    type V = HomeView;

    open spec fn view(&self) -> HomeView {
        HomeView {
            groups: self.groups.deep_view(),
            default_shell: self.default_shell@,
            links: self.links.deep_view(),
        }
    }
}

impl DeepView for Home {
    type V = HomeView;

    open spec fn deep_view(&self) -> HomeView {
        self@
    }
}

impl View for Data {
    type V = DataView;

    open spec fn view(&self) -> DataView {
        DataView { packages: self.system.packages.deep_view(), users: self.users.deep_view() }
    }
}

impl Data {
    /// The description that asks for nothing.
    pub fn empty() -> (data: Data)
        ensures
            data@.packages.len() == 0,
            data@.users.len() == 0,
    {
        let data = Data { system: System { packages: Vec::new() }, users: Table::new() };
        assert(data.system.packages.deep_view() =~= Seq::<Seq<char>>::empty());
        data
    }
}

} // verus!
