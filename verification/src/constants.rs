//! Names that are fixed for a distribution.

use vstd::prelude::*;

verus! {

/// How many package managers the Arch backend knows.
pub const ARCH_PACKAGE_MANAGER_COUNT: usize = 2;

/// The name of the package manager with the given rank; a lower rank is
/// preferred.
pub open spec fn arch_package_manager(rank: int) -> Seq<char> {
    if rank == 0 {
        "yay"@
    } else {
        "paru"@
    }
}

/// The package managers that the Arch backend can drive, most preferred first.
pub fn arch_supported_package_managers() -> (names: Vec<&'static str>)
    ensures
        names.len() == ARCH_PACKAGE_MANAGER_COUNT,
        forall|rank: int| 0 <= rank < names.len() ==> names[rank]@ == arch_package_manager(rank),
{
    let mut names: Vec<&'static str> = Vec::new();
    names.push("yay");
    names.push("paru");
    names
}

} // verus!
