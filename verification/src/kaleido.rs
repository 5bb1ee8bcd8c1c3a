//! The catalog: packages and bindles, and the merge of the system catalog
//! with a user override.  Reading and decoding the catalog files is the
//! caller's task; this module owns what the merged catalog means.

use vstd::prelude::*;

verus! {

#[derive(Clone, Debug)]
pub struct Kaleido {
    pub packages: Vec<Package>,
    pub bindles: Vec<Bindle>,
}

#[derive(Clone, Debug)]
pub struct Bindle {
    pub name: String,
    pub packages: Vec<BindlePackage>,
}

#[derive(Clone, Debug)]
pub struct BindlePackage {
    pub name: String,
    pub alias: Option<String>,
}

#[derive(Clone, Debug)]
pub struct Package {
    pub name: String,
    pub url: String,
    pub description: Option<String>,
    pub version: Option<String>,
    pub replace: Option<String>,
    pub language: Option<String>,
    pub bin_name: String,
    pub bin_path: Option<String>,
    pub remote_file_prefix: Option<String>,
    pub github: Option<Github>,
}

#[derive(Clone, Debug)]
pub struct Github {
    pub org: String,
    pub repo: String,
}

#[derive(Clone, Debug)]
pub enum ConfigError {
    Fs(String),
    ConfigRead(String),
    ConfigConvert(String),
    NoSuchFile(),
}

/// An exact copy of an optional string.
pub fn clone_opt_string(o: &Option<String>) -> (r: Option<String>)
    ensures
        r == *o,
{
    match o {
        Some(s) => Some(s.clone()),
        None => None,
    }
}

/// An exact copy of a package entry.
pub fn clone_package(p: &Package) -> (r: Package)
    ensures
        r == *p,
{
    let github = match &p.github {
        Some(g) => Some(Github { org: g.org.clone(), repo: g.repo.clone() }),
        None => None,
    };
    Package {
        name: p.name.clone(),
        url: p.url.clone(),
        description: clone_opt_string(&p.description),
        version: clone_opt_string(&p.version),
        replace: clone_opt_string(&p.replace),
        language: clone_opt_string(&p.language),
        bin_name: p.bin_name.clone(),
        bin_path: clone_opt_string(&p.bin_path),
        remote_file_prefix: clone_opt_string(&p.remote_file_prefix),
        github,
    }
}

/// Merges the system catalog with an optional user catalog: user entries are
/// appended, nothing is de-duplicated, so the earlier (system) entry wins on
/// a first-match lookup.
pub fn load_config(sys: Kaleido, custom: Option<Kaleido>) -> (r: Kaleido)
    ensures
        match custom {
            Option::None => r == sys,
            Option::Some(c) => r.packages@ == sys.packages@ + c.packages@ && r.bindles@
                == sys.bindles@ + c.bindles@,
        },
{
    match custom {
        None => sys,
        Some(c) => {
            let mut packages = sys.packages;
            let mut custom_packages = c.packages;
            packages.append(&mut custom_packages);
            let mut bindles = sys.bindles;
            let mut custom_bindles = c.bindles;
            bindles.append(&mut custom_bindles);
            Kaleido { packages, bindles }
        },
    }
}

/// The first catalog entry with the given name, by scan order.
pub open spec fn first_package_named(packages: Seq<Package>, name: Seq<char>) -> Option<Package>
    decreases packages.len(),
{
    if packages.len() == 0 {
        Option::None
    } else if packages.first().name@ == name {
        Option::Some(packages.first())
    } else {
        first_package_named(packages.drop_first(), name)
    }
}

pub proof fn lemma_first_package_named_step(packages: Seq<Package>, name: Seq<char>, i: int)
    requires
        0 <= i < packages.len(),
        forall|j: int| 0 <= j < i ==> packages[j].name@ != name,
    ensures
        packages[i].name@ == name ==> first_package_named(packages, name) == Option::Some(
            packages[i],
        ),
    decreases i,
{
    if i > 0 {
        lemma_first_package_named_step(packages.drop_first(), name, i - 1);
    }
}

pub proof fn lemma_first_package_named_none(packages: Seq<Package>, name: Seq<char>)
    requires
        forall|j: int| 0 <= j < packages.len() ==> packages[j].name@ != name,
    ensures
        first_package_named(packages, name) is None,
    decreases packages.len(),
{
    if packages.len() > 0 {
        lemma_first_package_named_none(packages.drop_first(), name);
    }
}

/// Looks a package up by name, first match winning.
pub fn lookup_package(packages: &Vec<Package>, name: &str) -> (r: Option<Package>)
    ensures
        r == first_package_named(packages@, name@),
{
    let mut i: usize = 0;
    while i < packages.len()
        invariant
            i <= packages@.len(),
            forall|j: int| 0 <= j < i ==> packages@[j].name@ != name@,
        decreases packages@.len() - i,
    {
        if crate::text::str_eq(packages[i].name.as_str(), name) {
            proof {
                lemma_first_package_named_step(packages@, name@, i as int);
            }
            return Some(clone_package(&packages[i]));
        }
        i += 1;
    }
    proof {
        lemma_first_package_named_none(packages@, name@);
    }
    None
}

} // verus!
