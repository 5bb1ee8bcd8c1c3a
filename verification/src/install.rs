//! Release resolution and asset selection.
//!
//! A release's files are scored against the host's platform signature by
//! splitting each file name into tokens on `-` and `.`; a release page is
//! scanned for the first entry the version policy accepts.  Fetching pages
//! and downloading files is the caller's task.

use vstd::prelude::*;

use crate::execute::InstallRequest;
use crate::fs::FSError;
use crate::kaleido::{Github, Package};
use crate::text::{opt_view, str_eq, substr_eq};

verus! {

/// Per-run installer settings: the required ABI token and whether an
/// installed version is reinstalled.
pub struct InstallerContext {
    pub rust_abi: String,
    pub force: bool,
}

/// A resolved remote release.
#[derive(Clone, Debug)]
pub struct AppRelease {
    pub version: String,
    pub source_url: Option<String>,
    pub assets: Vec<AppAsset>,
}

/// One downloadable file of a release.
#[derive(Clone, Debug)]
pub struct AppAsset {
    pub name: String,
    pub download_url: String,
}

/// What one release feed entry says before assets are considered.
#[derive(Clone, Debug)]
pub struct ReleaseCandidate {
    pub tag_name: String,
    pub draft: bool,
    pub prerelease: bool,
}

/// The errors of the install layer, with plain payloads.
#[derive(Clone, Debug)]
pub enum InstallError {
    Http(String),
    FileSystem(String),
    General(String),
    GeneralStr(&'static str),
    ToolFs(FSError),
}

pub open spec fn is_token_sep(c: char) -> bool {
    c == '-' || c == '.'
}

/// `[i, j)` is one maximal separator-free run of `s`.
pub open spec fn token_run(s: Seq<char>, i: int, j: int) -> bool {
    &&& 0 <= i <= j <= s.len()
    &&& (i == 0 || is_token_sep(s[i - 1]))
    &&& (j == s.len() || is_token_sep(s[j]))
    &&& forall|k: int| i <= k < j ==> !is_token_sep(s[k])
}

/// Whether splitting `s` on `-` and `.` yields the token `t`.
pub open spec fn has_token(s: Seq<char>, t: Seq<char>) -> bool {
    exists|i: int, j: int| token_run(s, i, j) && s.subrange(i, j) == t
}

fn token_sep_at(s: &str, i: usize) -> (r: bool)
    requires
        i < s@.len(),
    ensures
        r == is_token_sep(s@[i as int]),
{
    let c = s.get_char(i);
    c == '-' || c == '.'
}

/// Whether the file name, split on `-` and `.`, contains the token.
pub fn name_has_token(name: &str, token: &str) -> (r: bool)
    ensures
        r == has_token(name@, token@),
{
    let n = name.unicode_len();
    let mut i: usize = 0;
    let mut k: usize = 0;
    while k < n
        invariant
            n == name@.len(),
            i <= k <= n,
            i == 0 || is_token_sep(name@[i - 1]),
            forall|m: int| i <= m < k ==> !is_token_sep(name@[m]),
            forall|i0: int, j0: int|
                token_run(name@, i0, j0) && j0 < k ==> name@.subrange(i0, j0) != token@,
        decreases n - k,
    {
        if token_sep_at(name, k) {
            proof {
                assert(token_run(name@, i as int, k as int));
            }
            if substr_eq(name, i, k, token) {
                proof {
                    assert(has_token(name@, token@)) by {
                        assert(token_run(name@, i as int, k as int) && name@.subrange(
                            i as int,
                            k as int,
                        ) == token@);
                    }
                }
                return true;
            }
            proof {
                assert forall|i0: int, j0: int|
                    token_run(name@, i0, j0) && j0 < k + 1 implies name@.subrange(i0, j0)
                    != token@ by {
                    if j0 == k {
                        assert(i0 == i) by {
                            if i0 < i {
                                assert(is_token_sep(name@[i - 1]));
                                assert(i0 <= i - 1 < j0);
                            }
                            if i0 > i {
                                assert(is_token_sep(name@[i0 - 1]));
                                assert(i <= i0 - 1 && i0 - 1 < k);
                            }
                        }
                    }
                }
            }
            i = k + 1;
        }
        k += 1;
    }
    proof {
        assert(token_run(name@, i as int, n as int));
    }
    if substr_eq(name, i, n, token) {
        proof {
            assert(has_token(name@, token@)) by {
                assert(token_run(name@, i as int, n as int) && name@.subrange(i as int, n as int)
                    == token@);
            }
        }
        return true;
    }
    proof {
        assert forall|i0: int, j0: int| token_run(name@, i0, j0) implies name@.subrange(i0, j0)
            != token@ by {
            if j0 == n {
                assert(i0 == i as int) by {
                    if i0 < i {
                        assert(is_token_sep(name@[i - 1]));
                        assert(i0 <= i - 1 < j0);
                    }
                    if i0 > i {
                        assert(is_token_sep(name@[i0 - 1]));
                        assert(i <= i0 - 1 && i0 - 1 < n);
                    }
                }
            }
        }
    }
    false
}

/// One operating-system name is remapped to its kernel-family token.
pub open spec fn spec_to_github_os(os: Seq<char>) -> Seq<char> {
    if os == "macos"@ {
        "darwin"@
    } else {
        os
    }
}

pub fn to_github_os(os: &str) -> (r: &str)
    ensures
        r@ == spec_to_github_os(os@),
{
    if str_eq(os, "macos") {
        "darwin"
    } else {
        os
    }
}

/// The architecture token is used as the toolchain reports it.
pub fn to_github_arch(arch: &str) -> (r: &str)
    ensures
        r@ == arch@,
{
    arch
}

/// The default required ABI token: one value where symbolic links need
/// privilege, another elsewhere.
pub fn default_abi(limited_links: bool) -> (r: String)
    ensures
        limited_links ==> r@ == "msvc"@,
        !limited_links ==> r@ == "gnu"@,
{
    if limited_links {
        "msvc".to_owned()
    } else {
        "gnu".to_owned()
    }
}

/// An asset is kept exactly when its name's token set contains the
/// architecture, the (remapped) operating system, the ABI token, and — only
/// when one is configured — the required prefix token.
pub open spec fn spec_asset_matches(
    name: Seq<char>,
    arch: Seq<char>,
    os: Seq<char>,
    abi: Seq<char>,
    prefix: Option<Seq<char>>,
) -> bool {
    &&& has_token(name, arch)
    &&& has_token(name, spec_to_github_os(os))
    &&& has_token(name, abi)
    &&& match prefix {
        Option::Some(p) => has_token(name, p),
        Option::None => true,
    }
}

pub fn asset_matches(name: &str, arch: &str, os: &str, abi: &str, prefix: &Option<String>) -> (r:
    bool)
    ensures
        r == spec_asset_matches(
            name@,
            arch@,
            os@,
            abi@,
            match *prefix {
                Option::Some(p) => Option::Some(p@),
                Option::None => Option::None,
            },
        ),
{
    let os_token = to_github_os(os);
    let arch_token = to_github_arch(arch);
    if !name_has_token(name, arch_token) {
        return false;
    }
    if !name_has_token(name, os_token) {
        return false;
    }
    if !name_has_token(name, abi) {
        return false;
    }
    match prefix {
        Some(p) => name_has_token(name, p.as_str()),
        None => true,
    }
}

/// Keeps the assets of a release that match the platform signature; the
/// version tag and source-archive link pass through unchanged.
pub fn find_assets(
    release: &AppRelease,
    arch: &str,
    os: &str,
    remote_file_prefix: &Option<String>,
    rust_abi: &str,
) -> (r: AppRelease)
    ensures
        r.version@ == release.version@,
        opt_view(r.source_url) == opt_view(release.source_url),
        r.assets@ == release.assets@.filter(
            |a: AppAsset|
                spec_asset_matches(
                    a.name@,
                    arch@,
                    os@,
                    rust_abi@,
                    match *remote_file_prefix {
                        Option::Some(p) => Option::Some(p@),
                        Option::None => Option::None,
                    },
                ),
        ),
{
    let ghost pred = |a: AppAsset|
        spec_asset_matches(
            a.name@,
            arch@,
            os@,
            rust_abi@,
            match *remote_file_prefix {
                Option::Some(p) => Option::Some(p@),
                Option::None => Option::None,
            },
        );
    let mut assets: Vec<AppAsset> = Vec::new();
    let mut i: usize = 0;
    proof {
        reveal(Seq::filter);
        assert(release.assets@.subrange(0, 0) =~= Seq::<AppAsset>::empty());
    }
    while i < release.assets.len()
        invariant
            i <= release.assets@.len(),
            assets@ == release.assets@.subrange(0, i as int).filter(pred),
            pred == (|a: AppAsset|
                spec_asset_matches(
                    a.name@,
                    arch@,
                    os@,
                    rust_abi@,
                    match *remote_file_prefix {
                        Option::Some(p) => Option::Some(p@),
                        Option::None => Option::None,
                    },
                )),
        decreases release.assets@.len() - i,
    {
        proof {
            reveal(Seq::filter);
            assert(release.assets@.subrange(0, i + 1).drop_last() =~= release.assets@.subrange(
                0,
                i as int,
            ));
            assert(release.assets@.subrange(0, i + 1).last() == release.assets@[i as int]);
        }
        let a = &release.assets[i];
        if asset_matches(a.name.as_str(), arch, os, rust_abi, remote_file_prefix) {
            assets.push(AppAsset { name: a.name.clone(), download_url: a.download_url.clone() });
        }
        i += 1;
    }
    proof {
        assert(release.assets@.subrange(0, release.assets@.len() as int) =~= release.assets@);
    }
    AppRelease {
        version: release.version.clone(),
        source_url: crate::kaleido::clone_opt_string(&release.source_url),
        assets,
    }
}

/// Decides, before any network work, how a request is resolved: the
/// requested version defaults to the latest sentinel, and only a package
/// with repository coordinates can be resolved at all.
pub fn resolve_plan(package: &Package, request: &InstallRequest) -> (r: Result<
    (Github, String),
    InstallError,
>)
    ensures
        match r {
            Result::Ok(pair) => {
                &&& package.github matches Option::Some(g) && pair.0 == g
                &&& pair.1@ == (match request.version {
                    Option::Some(v) => v@,
                    Option::None => "LATEST"@,
                })
            },
            Result::Err(e) => {
                &&& package.github is None
                &&& e matches InstallError::GeneralStr(m) && m@
                    == "currently only support to install from github.com"@
            },
        },
{
    match &package.github {
        None => Err(InstallError::GeneralStr("currently only support to install from github.com")),
        Some(g) => {
            let version = match &request.version {
                Some(v) => v.clone(),
                None => "LATEST".to_owned(),
            };
            Ok((Github { org: g.org.clone(), repo: g.repo.clone() }, version))
        },
    }
}

/// An explicit version is matched by a tag equal to it, or to `v` followed
/// by it when the request does not itself start with `v`.
pub open spec fn spec_version_matches(tag: Seq<char>, version: Seq<char>) -> bool {
    ||| tag == version
    ||| (version != "LATEST"@ && (version.len() == 0 || version[0] != 'v') && tag == seq!['v']
        + version)
}

/// Which release feed entries the version policy accepts: under the latest
/// sentinel, any entry that is neither draft nor prerelease; under an
/// explicit version, a tolerated tag.
pub open spec fn spec_release_matches(
    tag: Seq<char>,
    draft: bool,
    prerelease: bool,
    version: Seq<char>,
) -> bool {
    if version == "LATEST"@ {
        !draft && !prerelease
    } else {
        spec_version_matches(tag, version)
    }
}

pub fn version_matches(tag: &str, version: &str) -> (r: bool)
    ensures
        r == spec_version_matches(tag@, version@),
{
    if str_eq(tag, version) {
        return true;
    }
    if str_eq(version, "LATEST") {
        return false;
    }
    let n = version.unicode_len();
    if n > 0 && version.get_char(0) == 'v' {
        return false;
    }
    let mut vv = "v".to_owned();
    vv.append(version);
    proof {
        reveal_strlit("v");
        assert(vv@ =~= seq!['v'] + version@);
    }
    str_eq(tag, vv.as_str())
}

pub fn release_matches(item: &ReleaseCandidate, version: &str) -> (r: bool)
    ensures
        r == spec_release_matches(item.tag_name@, item.draft, item.prerelease, version@),
{
    if str_eq(version, "LATEST") {
        !item.draft && !item.prerelease
    } else {
        version_matches(item.tag_name.as_str(), version)
    }
}

/// What scanning one release feed page decides.
pub enum PageScan {
    /// The page was empty: the release does not exist.
    Empty,
    /// The first accepted entry of the page.
    Found(usize),
    /// A non-empty page with no accepted entry: try the next page.
    NextPage,
}

/// Scans one page of the release feed: an empty page ends the search as
/// not-found, the first accepted entry is the result, and otherwise the
/// search continues with the next page.
pub fn scan_release_page(items: &Vec<ReleaseCandidate>, version: &str) -> (r: PageScan)
    ensures
        match r {
            PageScan::Empty => items@.len() == 0,
            PageScan::Found(i) => {
                &&& (i as int) < items@.len()
                &&& spec_release_matches(
                    items@[i as int].tag_name@,
                    items@[i as int].draft,
                    items@[i as int].prerelease,
                    version@,
                )
                &&& forall|j: int|
                    0 <= j < i as int ==> !spec_release_matches(
                        items@[j].tag_name@,
                        items@[j].draft,
                        items@[j].prerelease,
                        version@,
                    )
            },
            PageScan::NextPage => {
                &&& items@.len() > 0
                &&& forall|j: int|
                    0 <= j < items@.len() ==> !spec_release_matches(
                        items@[j].tag_name@,
                        items@[j].draft,
                        items@[j].prerelease,
                        version@,
                    )
            },
        },
{
    if items.len() == 0 {
        return PageScan::Empty;
    }
    let mut i: usize = 0;
    while i < items.len()
        invariant
            i <= items@.len(),
            forall|j: int|
                0 <= j < i ==> !spec_release_matches(
                    items@[j].tag_name@,
                    items@[j].draft,
                    items@[j].prerelease,
                    version@,
                ),
        decreases items@.len() - i,
    {
        if release_matches(&items[i], version) {
            return PageScan::Found(i);
        }
        i += 1;
    }
    PageScan::NextPage
}

} // verus!
