//! The from-source branch of an install: naming the downloaded source
//! archive.  Running the build itself is the caller's task.

use vstd::prelude::*;

verus! {

/// Marker for the from-source install path of the ecosystem's packages.
pub struct RustSrcInstaller {}

/// The file name the source archive of a release is saved under.
pub fn source_archive_name(version: &str) -> (r: String)
    ensures
        r@ == version@ + ".zip"@,
{
    let mut out = version.to_owned();
    out.append(".zip");
    out
}

} // verus!
