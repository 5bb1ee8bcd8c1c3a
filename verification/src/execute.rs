//! Per-request planning: from a catalog and an install request to the
//! decision whether, and with which catalog entry, installation proceeds.
//! Requests in a batch are planned strictly one by one.

use vstd::prelude::*;

use crate::kaleido::{first_package_named, lookup_package, Kaleido, Package};

verus! {

/// The version sentinel meaning "the newest acceptable release".
pub const LATEST_VERSION: &'static str = "LATEST";

/// One install request of a batch.
#[derive(Clone, Debug)]
pub struct InstallRequest {
    pub name: String,
    pub alias: Option<String>,
    pub version: Option<String>,
}

/// What planning one request decides.
pub enum RequestPlan {
    /// The catalog has no entry of that name; the request fails alone.
    UnknownPackage,
    /// The entry names no ecosystem; nothing is installed.
    NoEcosystem,
    /// The entry names an ecosystem this tool cannot build or fetch.
    UnsupportedEcosystem,
    /// Installation proceeds with this catalog entry.
    Proceed(Package),
}

/// The recognized ecosystem tag, compared without regard to ASCII case.
pub open spec fn is_rust_tag(s: Seq<char>) -> bool {
    &&& s.len() == 4
    &&& (s[0] == 'r' || s[0] == 'R')
    &&& (s[1] == 'u' || s[1] == 'U')
    &&& (s[2] == 's' || s[2] == 'S')
    &&& (s[3] == 't' || s[3] == 'T')
}

pub fn is_rust_ecosystem(s: &str) -> (r: bool)
    ensures
        r == is_rust_tag(s@),
{
    if s.unicode_len() != 4 {
        return false;
    }
    let c0 = s.get_char(0);
    let c1 = s.get_char(1);
    let c2 = s.get_char(2);
    let c3 = s.get_char(3);
    (c0 == 'r' || c0 == 'R') && (c1 == 'u' || c1 == 'U') && (c2 == 's' || c2 == 'S') && (c3 == 't'
        || c3 == 'T')
}

/// What one request resolves to against a catalog.
pub open spec fn spec_plan_request(packages: Seq<Package>, name: Seq<char>) -> RequestPlan {
    match first_package_named(packages, name) {
        Option::None => RequestPlan::UnknownPackage,
        Option::Some(p) => match p.language {
            Option::None => RequestPlan::NoEcosystem,
            Option::Some(l) => if is_rust_tag(l@) {
                RequestPlan::Proceed(p)
            } else {
                RequestPlan::UnsupportedEcosystem
            },
        },
    }
}

/// Plans one request: the first catalog entry of that name decides, and only
/// a recognized ecosystem tag lets installation proceed.
pub fn plan_request(kaleido: &Kaleido, request: &InstallRequest) -> (r: RequestPlan)
    ensures
        r == spec_plan_request(kaleido.packages@, request.name@),
{
    match lookup_package(&kaleido.packages, request.name.as_str()) {
        None => RequestPlan::UnknownPackage,
        Some(p) => {
            let proceed = match &p.language {
                None => {
                    return RequestPlan::NoEcosystem;
                },
                Some(l) => is_rust_ecosystem(l.as_str()),
            };
            if proceed {
                RequestPlan::Proceed(p)
            } else {
                RequestPlan::UnsupportedEcosystem
            }
        },
    }
}

/// The plans of a whole batch, one per request, in order.
pub open spec fn spec_plan_batch(packages: Seq<Package>, requests: Seq<InstallRequest>) -> Seq<
    RequestPlan,
> {
    Seq::new(requests.len(), |i: int| spec_plan_request(packages, requests[i].name@))
}

pub fn plan_batch(kaleido: &Kaleido, requests: &Vec<InstallRequest>) -> (r: Vec<RequestPlan>)
    ensures
        r@ == spec_plan_batch(kaleido.packages@, requests@),
{
    let mut out: Vec<RequestPlan> = Vec::new();
    let mut i: usize = 0;
    while i < requests.len()
        invariant
            i <= requests@.len(),
            out@.len() == i,
            forall|j: int|
                0 <= j < i ==> out@[j] == spec_plan_request(
                    kaleido.packages@,
                    requests@[j].name@,
                ),
        decreases requests@.len() - i,
    {
        let p = plan_request(kaleido, &requests[i]);
        out.push(p);
        i += 1;
    }
    proof {
        assert(out@ =~= spec_plan_batch(kaleido.packages@, requests@));
    }
    out
}

/// Batch independence: what a batch plans for one request depends on that
/// request alone, so a missing package never disturbs its siblings.
pub proof fn lemma_batch_independence(
    packages: Seq<Package>,
    reqs1: Seq<InstallRequest>,
    reqs2: Seq<InstallRequest>,
    i: int,
)
    requires
        0 <= i < reqs1.len(),
        0 <= i < reqs2.len(),
        reqs1[i] == reqs2[i],
    ensures
        spec_plan_batch(packages, reqs1)[i] == spec_plan_batch(packages, reqs2)[i],
{
}

} // verus!
