//! Typed parameters of a payment service's "create checkout session" request,
//! and their encoding into the flat form the service reads: nested objects
//! under `parent[child]` keys, list elements under `list[0]`, `list[1]`, ...,
//! and no key at all for an optional field that is unset.
use vstd::prelude::*;

pub mod checkout_session;
pub mod laws;
pub mod params;
pub mod wire;

verus! {

} // verus!
