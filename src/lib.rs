//! Convergence engine for user provisioning: decodes a typed table into
//! canonical user records and plans how each backend is brought in line.
use vstd::prelude::*;

pub mod cell;
pub mod table;
pub mod users;
pub mod reconcile;
pub mod roles;
pub mod services;

verus! {

/// Default for boolean fields that are on unless stated otherwise.
pub fn true_bool() -> (r: bool)
    ensures
        r,
{
    true
}

/// Default for boolean fields that are off unless stated otherwise.
pub fn false_bool() -> (r: bool)
    ensures
        !r,
{
    false
}

} // verus!
