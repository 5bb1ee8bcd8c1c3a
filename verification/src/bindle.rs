//! Expanding a named group of packages into install requests.  Members
//! absent from the catalog are collected and reported, never fatal.

use vstd::prelude::*;

use crate::execute::InstallRequest;
use crate::kaleido::{
    clone_opt_string, first_package_named, lookup_package, Bindle, BindlePackage, Kaleido, Package,
};
use crate::text::str_eq;

verus! {

/// The first bindle with the given name, by scan order.
pub open spec fn first_bindle_named(bindles: Seq<Bindle>, name: Seq<char>) -> Option<Bindle>
    decreases bindles.len(),
{
    if bindles.len() == 0 {
        Option::None
    } else if bindles.first().name@ == name {
        Option::Some(bindles.first())
    } else {
        first_bindle_named(bindles.drop_first(), name)
    }
}

proof fn lemma_first_bindle_named_step(bindles: Seq<Bindle>, name: Seq<char>, i: int)
    requires
        0 <= i < bindles.len(),
        forall|j: int| 0 <= j < i ==> bindles[j].name@ != name,
    ensures
        bindles[i].name@ == name ==> first_bindle_named(bindles, name) == Option::Some(bindles[i]),
    decreases i,
{
    if i > 0 {
        lemma_first_bindle_named_step(bindles.drop_first(), name, i - 1);
    }
}

proof fn lemma_first_bindle_named_none(bindles: Seq<Bindle>, name: Seq<char>)
    requires
        forall|j: int| 0 <= j < bindles.len() ==> bindles[j].name@ != name,
    ensures
        first_bindle_named(bindles, name) is None,
    decreases bindles.len(),
{
    if bindles.len() > 0 {
        lemma_first_bindle_named_none(bindles.drop_first(), name);
    }
}

/// The requests a bindle's members expand to: one per member present in the
/// catalog, carrying the member's alias and no explicit version.
pub open spec fn spec_expand_requests(
    packages: Seq<Package>,
    members: Seq<BindlePackage>,
) -> Seq<InstallRequest>
    decreases members.len(),
{
    if members.len() == 0 {
        Seq::empty()
    } else {
        let prev = spec_expand_requests(packages, members.drop_last());
        let bp = members.last();
        match first_package_named(packages, bp.name@) {
            Option::Some(p) => prev.push(
                InstallRequest { name: p.name, version: Option::None, alias: bp.alias },
            ),
            Option::None => prev,
        }
    }
}

/// The member names absent from the catalog, in order.
pub open spec fn spec_expand_missing(
    packages: Seq<Package>,
    members: Seq<BindlePackage>,
) -> Seq<String>
    decreases members.len(),
{
    if members.len() == 0 {
        Seq::empty()
    } else {
        let prev = spec_expand_missing(packages, members.drop_last());
        let bp = members.last();
        match first_package_named(packages, bp.name@) {
            Option::Some(p) => prev,
            Option::None => prev.push(bp.name),
        }
    }
}

/// Expands the named bindle into install requests and the list of member
/// names the catalog does not know; none when no bindle has that name.
pub fn get_packages(name: &str, kaleido: &Kaleido) -> (r: Option<
    (Vec<InstallRequest>, Vec<String>),
>)
    ensures
        match r {
            Option::Some(pair) => {
                &&& first_bindle_named(kaleido.bindles@, name@) matches Option::Some(b)
                    && pair.0@ == spec_expand_requests(kaleido.packages@, b.packages@)
                    && pair.1@ == spec_expand_missing(kaleido.packages@, b.packages@)
            },
            Option::None => first_bindle_named(kaleido.bindles@, name@) is None,
        },
{
    let mut bi: usize = 0;
    let nb = kaleido.bindles.len();
    while bi < nb
        invariant
            nb == kaleido.bindles@.len(),
            bi <= nb,
            forall|j: int| 0 <= j < bi ==> kaleido.bindles@[j].name@ != name@,
        decreases nb - bi,
    {
        if str_eq(kaleido.bindles[bi].name.as_str(), name) {
            proof {
                lemma_first_bindle_named_step(kaleido.bindles@, name@, bi as int);
            }
            let b = &kaleido.bindles[bi];
            let mut requests: Vec<InstallRequest> = Vec::new();
            let mut missing: Vec<String> = Vec::new();
            let mut i: usize = 0;
            proof {
                assert(b.packages@.subrange(0, 0) =~= Seq::<BindlePackage>::empty());
            }
            while i < b.packages.len()
                invariant
                    i <= b.packages@.len(),
                    requests@ == spec_expand_requests(
                        kaleido.packages@,
                        b.packages@.subrange(0, i as int),
                    ),
                    missing@ == spec_expand_missing(
                        kaleido.packages@,
                        b.packages@.subrange(0, i as int),
                    ),
                decreases b.packages@.len() - i,
            {
                proof {
                    assert(b.packages@.subrange(0, i + 1).drop_last() =~= b.packages@.subrange(
                        0,
                        i as int,
                    ));
                    assert(b.packages@.subrange(0, i + 1).last() == b.packages@[i as int]);
                }
                let bp = &b.packages[i];
                match lookup_package(&kaleido.packages, bp.name.as_str()) {
                    Some(p) => {
                        requests.push(
                            InstallRequest {
                                name: p.name,
                                version: None,
                                alias: clone_opt_string(&bp.alias),
                            },
                        );
                    },
                    None => {
                        missing.push(bp.name.clone());
                    },
                }
                i += 1;
            }
            proof {
                assert(b.packages@.subrange(0, b.packages@.len() as int) =~= b.packages@);
            }
            return Some((requests, missing));
        }
        bi += 1;
    }
    proof {
        lemma_first_bindle_named_none(kaleido.bindles@, name@);
    }
    None
}

} // verus!
