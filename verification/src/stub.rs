//! The stub platform: the build-time alternative used where the kernel
//! change-notification facility is absent.  It reports that no searcher can
//! be had for any kind, and every open attempt fails, handing the device
//! back untouched.  A caller holding no searcher polls forever without a
//! device appearing; that is a valid outcome, not an error.

use vstd::prelude::*;

use crate::search::Events;
use crate::search::Found;
use crate::search::Kind;
use crate::search::Searcher;

verus! {

/// Stub construction: no kind has a searcher on this platform.
pub fn stub_searcher(_kind: Kind) -> (r: Option<Searcher>)
    ensures
        r is None,
{
    None
}

/// Stub open: always fails, returning the same device so that the caller
/// may retry under another access interest.
pub fn stub_open<T>(found: Found, _events: Events) -> (r: Result<T, Found>)
    ensures
        r matches Err(f) && f == found,
{
    Err(found)
}

} // verus!
