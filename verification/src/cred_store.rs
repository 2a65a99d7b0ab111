//! Persistence of the refresh token between runs.
//!
//! This build keeps nothing: loading finds no token and storing is a no-op,
//! which callers must treat as a valid answer.

use vstd::prelude::*;

verus! {

/// The refresh token kept from an earlier run, if any. None is kept here.
pub fn get_refresh_token() -> (token: Option<String>)
    ensures
        token is None,
{
    None
}

/// Keeps `cred` for a later run. Nothing is kept here, so the call has no effect.
pub fn store_refresh_token(_cred: &str) {
}

} // verus!
