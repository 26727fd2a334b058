//! How sources are called: with which credentials, and when to try again.
use crate::text::cat;
use vstd::prelude::*;

verus! {

/// How long a source has to answer, in seconds.
pub const DEFAULT_TIMEOUT_SECS: u64 = 30;

/// How often a source is asked at most.
pub const MAX_RETRIES: u32 = 3;

/// The value of the `Authorization` header for a key, where there is one.
pub fn authorization(api_key: &Option<String>) -> (r: Option<String>)
    ensures
        match (r, *api_key) {
            (Some(h), Some(key)) => h@ == "Bearer "@ + key@,
            (None, None) => true,
            _ => false,
        },
{
    match api_key {
        Some(key) => Some(cat("Bearer ", key.as_str())),
        None => None,
    }
}

/// Whether a status says that the server failed.
pub open spec fn is_server_error(status: u16) -> bool {
    500 <= status < 600
}

/// Whether a source that answered with `status` is asked again, after `attempt`
/// earlier tries, and after how many milliseconds: only where it failed, and only
/// while tries are left; the wait doubles each time.
pub fn retry_after(status: u16, attempt: u32) -> (r: Option<u64>)
    ensures
        r is Some <==> is_server_error(status) && attempt + 1 < MAX_RETRIES,
        r matches Some(wait) ==> wait == 100 * vstd::arithmetic::power2::pow2(attempt as nat),
{
    if 500 <= status && status < 600 && attempt < MAX_RETRIES - 1 {
        proof {
            vstd::arithmetic::power2::lemma2_to64();
        }
        if attempt == 0 {
            Some(100)
        } else {
            Some(200)
        }
    } else {
        None
    }
}

/// A source is said to have failed exactly by a status from 500 to 599.
pub proof fn law_server_errors_are_the_five_hundreds(status: u16)
    ensures
        is_server_error(status) <==> status / 100 == 5,
{
}

} // verus!
