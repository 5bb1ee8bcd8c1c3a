//! Deciding which published links an uninstall must remove.
//!
//! A link belongs to a targeted package exactly when its resolved target
//! lies inside the packages directory and inside one of the targeted
//! package directories; links of other packages in the same bin directory
//! are never touched.

use vstd::prelude::*;

use crate::paths::{path_starts_with, spec_path_starts_with};

verus! {

/// Whether a resolved link target belongs to one of the targeted package
/// directories.
pub open spec fn spec_link_targeted(
    target: Seq<char>,
    packages_dir: Seq<char>,
    target_dirs: Seq<String>,
) -> bool {
    spec_path_starts_with(target, packages_dir) && (exists|i: int|
        0 <= i < target_dirs.len() && spec_path_starts_with(target, target_dirs[i]@))
}

/// Decides whether the link resolving to `target` is removed when the
/// packages under `target_dirs` are uninstalled.
pub fn is_link_targeted(target: &str, packages_dir: &str, target_dirs: &Vec<String>) -> (r: bool)
    ensures
        r == spec_link_targeted(target@, packages_dir@, target_dirs@),
{
    if !path_starts_with(target, packages_dir) {
        return false;
    }
    let mut i: usize = 0;
    while i < target_dirs.len()
        invariant
            i <= target_dirs@.len(),
            spec_path_starts_with(target@, packages_dir@),
            forall|j: int| 0 <= j < i ==> !spec_path_starts_with(target@, target_dirs@[j]@),
        decreases target_dirs@.len() - i,
    {
        if path_starts_with(target, target_dirs[i].as_str()) {
            return true;
        }
        i += 1;
    }
    false
}

/// Whether any of the paths hardlinked to one bin-directory entry resolves
/// into a targeted package directory.
pub open spec fn spec_any_link_targeted(
    links: Seq<String>,
    packages_dir: Seq<char>,
    target_dirs: Seq<String>,
) -> bool {
    exists|i: int|
        0 <= i < links.len() && spec_link_targeted(links[i]@, packages_dir, target_dirs)
}

/// The link paths of one entry that live in a link directory, in order:
/// what is actually deleted once the entry is known to be targeted.
pub open spec fn spec_links_in_link_dirs(
    links: Seq<String>,
    bin_dir: Seq<char>,
    alias_dir: Seq<char>,
) -> Seq<String> {
    links.filter(
        |l: String|
            spec_path_starts_with(l@, bin_dir) || spec_path_starts_with(l@, alias_dir),
    )
}

/// Decides, for one bin- or alias-directory entry and the paths hardlinked
/// to it, which of those paths to remove: all of them that live in a link
/// directory when any of them resolves into a targeted package directory,
/// none otherwise.
pub fn select_links_to_remove(
    links: &Vec<String>,
    packages_dir: &str,
    target_dirs: &Vec<String>,
    bin_dir: &str,
    alias_dir: &str,
) -> (r: Vec<String>)
    ensures
        spec_any_link_targeted(links@, packages_dir@, target_dirs@) ==> r@
            == spec_links_in_link_dirs(links@, bin_dir@, alias_dir@),
        !spec_any_link_targeted(links@, packages_dir@, target_dirs@) ==> r@.len() == 0,
{
    let ghost pred = |l: String|
        spec_path_starts_with(l@, bin_dir@) || spec_path_starts_with(l@, alias_dir@);
    let mut targeted = false;
    let mut i: usize = 0;
    while i < links.len()
        invariant
            i <= links@.len(),
            targeted ==> spec_any_link_targeted(links@, packages_dir@, target_dirs@),
            !targeted ==> forall|j: int|
                0 <= j < i ==> !spec_link_targeted(links@[j]@, packages_dir@, target_dirs@),
        decreases links@.len() - i,
    {
        if !targeted {
            if is_link_targeted(links[i].as_str(), packages_dir, target_dirs) {
                targeted = true;
            }
        }
        i += 1;
    }
    if !targeted {
        return Vec::new();
    }
    let mut out: Vec<String> = Vec::new();
    let mut i: usize = 0;
    proof {
        reveal(Seq::filter);
        assert(links@.subrange(0, 0) =~= Seq::<String>::empty());
    }
    while i < links.len()
        invariant
            i <= links@.len(),
            targeted,
            spec_any_link_targeted(links@, packages_dir@, target_dirs@),
            out@ == links@.subrange(0, i as int).filter(pred),
            pred == (|l: String|
                spec_path_starts_with(l@, bin_dir@) || spec_path_starts_with(l@, alias_dir@)),
        decreases links@.len() - i,
    {
        proof {
            reveal(Seq::filter);
            assert(links@.subrange(0, i + 1).drop_last() =~= links@.subrange(0, i as int));
            assert(links@.subrange(0, i + 1).last() == links@[i as int]);
        }
        if path_starts_with(links[i].as_str(), bin_dir) || path_starts_with(
            links[i].as_str(),
            alias_dir,
        ) {
            out.push(links[i].clone());
        }
        i += 1;
    }
    proof {
        assert(links@.subrange(0, links@.len() as int) =~= links@);
    }
    out
}

/// Uninstall isolation: a link whose target lies in a targeted package's
/// directory is selected for removal, and a link whose target lies in no
/// targeted directory is left alone, even when both sit side by side in the
/// same bin directory.
pub proof fn lemma_uninstall_isolation(
    target_a: Seq<char>,
    target_b: Seq<char>,
    packages_dir: Seq<char>,
    target_dirs: Seq<String>,
)
    requires
        spec_path_starts_with(target_a, packages_dir),
        exists|i: int|
            0 <= i < target_dirs.len() && spec_path_starts_with(target_a, target_dirs[i]@),
        forall|i: int|
            0 <= i < target_dirs.len() ==> !spec_path_starts_with(target_b, target_dirs[i]@),
    ensures
        spec_link_targeted(target_a, packages_dir, target_dirs),
        !spec_link_targeted(target_b, packages_dir, target_dirs),
{
}

} // verus!
