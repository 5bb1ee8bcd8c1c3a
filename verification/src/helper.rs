//! Tracing a published link back to the package that owns it.
//!
//! A package is installed exactly when a bin-directory link resolves into
//! `packages/<name>/<version>/<executable>`; these functions decide that from
//! the resolved target path alone.  Reading directories and following links
//! is the caller's task.

use vstd::prelude::*;

use crate::kaleido::{first_package_named, lookup_package, Package};
use crate::paths::{
    is_seg_prefix, lemma_split_path_len, seg_prefix, segs_view, spec_file_name, split_path,
    split_path_exec, strip_trailing_seps,
};
use crate::text::str_eq;

verus! {

/// A package together with the version a link resolves to.
#[derive(Clone, Debug)]
pub struct InstalledPackage {
    pub package: Package,
    pub version: String,
}

/// The name part of a path, as `spec_file_name` defines it.
pub fn get_file_name(p: &str) -> (r: Option<String>)
    ensures
        match r {
            Option::Some(f) => spec_file_name(p@) == Option::Some(f@),
            Option::None => spec_file_name(p@) is None,
        },
{
    let stripped = strip_trailing_seps(p);
    let (segs, _ends) = split_path_exec(stripped.as_str());
    proof {
        lemma_split_path_len(stripped@);
        assert(segs_view(segs@).last() == segs@.last()@);
        reveal_strlit(".");
        reveal_strlit("..");
        assert("."@ =~= seq!['.']);
        assert(".."@ =~= seq!['.', '.']);
    }
    let last = &segs[segs.len() - 1];
    if last.as_str().unicode_len() == 0 || str_eq(last.as_str(), ".") || str_eq(
        last.as_str(),
        "..",
    ) {
        None
    } else {
        Some(last.clone())
    }
}

/// What a resolved link target means: when the target lies below the
/// packages directory, the segment after it names the package and the
/// segment above the file names the version.
pub open spec fn spec_installed_package(
    target: Seq<char>,
    packages_dir: Seq<char>,
    packages: Seq<Package>,
) -> Option<(Package, Seq<char>)> {
    let ts = split_path(target);
    let ds = split_path(packages_dir);
    if seg_prefix(ds, ts) && ts.len() > ds.len() {
        match first_package_named(packages, ts[ds.len() as int]) {
            Option::Some(p) => {
                let v = ts[ts.len() - 2];
                if v.len() == 0 || v == seq!['.'] || v == seq!['.', '.'] {
                    Option::None
                } else {
                    Option::Some((p, v))
                }
            },
            Option::None => Option::None,
        }
    } else {
        Option::None
    }
}

/// Decides which installed package, if any, the resolved target of one
/// bin-directory link belongs to.
pub fn get_installed_package(target: &str, packages_dir: &str, packages: &Vec<Package>) -> (r:
    Option<InstalledPackage>)
    ensures
        match r {
            Option::Some(ip) => spec_installed_package(target@, packages_dir@, packages@)
                == Option::Some((ip.package, ip.version@)),
            Option::None => spec_installed_package(target@, packages_dir@, packages@) is None,
        },
{
    let (ts, _tends) = split_path_exec(target);
    let (ds, _dends) = split_path_exec(packages_dir);
    proof {
        lemma_split_path_len(packages_dir@);
        reveal_strlit(".");
        reveal_strlit("..");
        assert("."@ =~= seq!['.']);
        assert(".."@ =~= seq!['.', '.']);
    }
    if !is_seg_prefix(&ds, &ts) || ts.len() <= ds.len() {
        return None;
    }
    proof {
        assert(segs_view(ts@)[ds@.len() as int] == ts@[ds@.len() as int]@);
        assert(segs_view(ts@)[ts@.len() - 2] == ts@[ts@.len() - 2]@);
    }
    let name = &ts[ds.len()];
    match lookup_package(packages, name.as_str()) {
        Some(p) => {
            let v = &ts[ts.len() - 2];
            if v.as_str().unicode_len() == 0 || str_eq(v.as_str(), ".") || str_eq(
                v.as_str(),
                "..",
            ) {
                None
            } else {
                Some(InstalledPackage { package: p, version: v.clone() })
            }
        },
        None => None,
    }
}

/// The first entry of `installed` for the named package.
pub open spec fn first_installed(v: Seq<InstalledPackage>, name: Seq<char>) -> Option<
    InstalledPackage,
>
    decreases v.len(),
{
    if v.len() == 0 {
        Option::None
    } else if v.first().package.name@ == name {
        Option::Some(v.first())
    } else {
        first_installed(v.drop_first(), name)
    }
}

proof fn lemma_first_installed_step(v: Seq<InstalledPackage>, name: Seq<char>, i: int)
    requires
        0 <= i < v.len(),
        forall|j: int| 0 <= j < i ==> v[j].package.name@ != name,
    ensures
        v[i].package.name@ == name ==> first_installed(v, name) == Option::Some(v[i]),
    decreases i,
{
    if i > 0 {
        lemma_first_installed_step(v.drop_first(), name, i - 1);
    }
}

proof fn lemma_first_installed_none(v: Seq<InstalledPackage>, name: Seq<char>)
    requires
        forall|j: int| 0 <= j < v.len() ==> v[j].package.name@ != name,
    ensures
        first_installed(v, name) is None,
    decreases v.len(),
{
    if v.len() > 0 {
        lemma_first_installed_none(v.drop_first(), name);
    }
}

/// The installed version of the named package, if a link was traced to it.
pub fn installed_version(installed: &Vec<InstalledPackage>, name: &str) -> (r: Option<String>)
    ensures
        match r {
            Option::Some(v) => first_installed(installed@, name@) matches Option::Some(ip)
                && v@ == ip.version@,
            Option::None => first_installed(installed@, name@) is None,
        },
{
    let mut i: usize = 0;
    while i < installed.len()
        invariant
            i <= installed@.len(),
            forall|j: int| 0 <= j < i ==> installed@[j].package.name@ != name@,
        decreases installed@.len() - i,
    {
        if str_eq(installed[i].package.name.as_str(), name) {
            proof {
                lemma_first_installed_step(installed@, name@, i as int);
            }
            return Some(installed[i].version.clone());
        }
        i += 1;
    }
    proof {
        lemma_first_installed_none(installed@, name@);
    }
    None
}

pub open spec fn is_line_break(c: char) -> bool {
    c == '\r' || c == '\n'
}

pub open spec fn spec_strip_trailing_breaks(s: Seq<char>) -> Seq<char>
    decreases s.len(),
{
    if s.len() > 0 && is_line_break(s.last()) {
        spec_strip_trailing_breaks(s.drop_last())
    } else {
        s
    }
}

pub open spec fn spec_strip_leading_breaks(s: Seq<char>) -> Seq<char>
    decreases s.len(),
{
    if s.len() > 0 && is_line_break(s.first()) {
        spec_strip_leading_breaks(s.drop_first())
    } else {
        s
    }
}

fn break_at(s: &str, i: usize) -> (r: bool)
    requires
        i < s@.len(),
    ensures
        r == is_line_break(s@[i as int]),
{
    let c = s.get_char(i);
    c == '\r' || c == '\n'
}

/// Removes line-break characters from both ends of one line of tool output.
pub fn trim_line_breaks(s: &str) -> (r: String)
    ensures
        r@ == spec_strip_leading_breaks(spec_strip_trailing_breaks(s@)),
{
    let n = s.unicode_len();
    let mut end: usize = n;
    proof {
        assert(s@.subrange(0, n as int) =~= s@);
    }
    while end > 0 && break_at(s, end - 1)
        invariant
            end <= n,
            n == s@.len(),
            spec_strip_trailing_breaks(s@) == spec_strip_trailing_breaks(
                s@.subrange(0, end as int),
            ),
        decreases end,
    {
        proof {
            assert(s@.subrange(0, end as int).last() == s@[end - 1]);
            assert(s@.subrange(0, end as int).drop_last() =~= s@.subrange(0, end - 1));
        }
        end = end - 1;
    }
    proof {
        if end > 0 {
            assert(!is_line_break(s@.subrange(0, end as int).last()));
        }
        assert(spec_strip_trailing_breaks(s@) == s@.subrange(0, end as int));
    }
    let mut start: usize = 0;
    while start < end && break_at(s, start)
        invariant
            start <= end <= n,
            n == s@.len(),
            spec_strip_leading_breaks(s@.subrange(0, end as int)) == spec_strip_leading_breaks(
                s@.subrange(start as int, end as int),
            ),
        decreases end - start,
    {
        proof {
            assert(s@.subrange(start as int, end as int).first() == s@[start as int]);
            assert(s@.subrange(start as int, end as int).drop_first() =~= s@.subrange(
                start + 1,
                end as int,
            ));
        }
        start = start + 1;
    }
    proof {
        if start < end {
            assert(!is_line_break(s@.subrange(start as int, end as int).first()));
        }
        assert(spec_strip_leading_breaks(s@.subrange(start as int, end as int)) == s@.subrange(
            start as int,
            end as int,
        ));
    }
    s.substring_char(start, end).to_owned()
}

/// Whether a path names its drive itself (`C:...`); such a line of link
/// enumeration output is already complete.
pub open spec fn has_drive(s: Seq<char>) -> bool {
    s.len() >= 2 && s[1] == ':'
}

/// One trimmed output line of the link enumeration tool, completed with the
/// drive prefix of the directory that was asked about when the line is
/// printed relative to that drive.
pub open spec fn spec_normalize_link_line(line: Seq<char>, drive: Seq<char>) -> Seq<char> {
    let t = spec_strip_leading_breaks(spec_strip_trailing_breaks(line));
    if has_drive(t) {
        t
    } else {
        drive + t
    }
}

/// Normalizes the raw output lines of the link enumeration tool into full
/// paths.  `drive` is the drive prefix of the queried directory.
pub fn normalize_hardlink_lines(lines: &Vec<String>, drive: &str) -> (r: Vec<String>)
    ensures
        r@.len() == lines@.len(),
        forall|i: int|
            0 <= i < r@.len() ==> r@[i]@ == spec_normalize_link_line(lines@[i]@, drive@),
{
    let mut out: Vec<String> = Vec::new();
    let mut i: usize = 0;
    while i < lines.len()
        invariant
            i <= lines@.len(),
            out@.len() == i,
            forall|j: int|
                0 <= j < i ==> out@[j]@ == spec_normalize_link_line(lines@[j]@, drive@),
        decreases lines@.len() - i,
    {
        let t = trim_line_breaks(lines[i].as_str());
        if t.as_str().unicode_len() >= 2 && t.as_str().get_char(1) == ':' {
            out.push(t);
        } else {
            let mut full = drive.to_owned();
            full.append(t.as_str());
            out.push(full);
        }
        i += 1;
    }
    out
}

} // verus!
