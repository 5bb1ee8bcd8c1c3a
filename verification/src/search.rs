//! Searching the catalog: a package is a hit when the keyword occurs in its
//! name or in the name of the tool it replaces.

use vstd::prelude::*;

use crate::kaleido::Package;
use crate::text::{spec_contains, str_contains};

verus! {

pub open spec fn spec_package_hit(p: Package, keyword: Seq<char>) -> bool {
    spec_contains(p.name@, keyword) || match p.replace {
        Option::Some(r) => spec_contains(r@, keyword),
        Option::None => false,
    }
}

/// Whether one catalog entry matches a search keyword.
pub fn package_matches_keyword(package: &Package, keyword: &str) -> (r: bool)
    ensures
        r == spec_package_hit(*package, keyword@),
{
    if str_contains(package.name.as_str(), keyword) {
        return true;
    }
    match &package.replace {
        Some(rep) => str_contains(rep.as_str(), keyword),
        None => false,
    }
}

} // verus!
