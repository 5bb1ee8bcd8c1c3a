//! When the system catalog file is offered a refresh, and how the
//! operator's answer to that offer is read.

use vstd::prelude::*;

verus! {

/// How old the catalog file may grow before a refresh is offered.
pub const REFRESH_AGE_SECS: u64 = 7 * 24 * 60 * 60;

/// Whether a catalog file of the given age has a refresh offered.
pub fn needs_refresh(age_secs: u64) -> (r: bool)
    ensures
        r == (age_secs > REFRESH_AGE_SECS),
{
    age_secs > REFRESH_AGE_SECS
}

/// Whether a normalized answer accepts the offer: anything beginning with
/// `y` does.
pub fn wants_update(answer: &str) -> (r: bool)
    ensures
        r == (answer@.len() > 0 && answer@[0] == 'y'),
{
    let n = answer.unicode_len();
    n > 0 && answer.get_char(0) == 'y'
}

} // verus!
