pub mod client;
pub mod cluster;
pub mod domain;
pub mod server;
pub mod state_machine;
pub mod text;
pub mod timeout;

use vstd::prelude::*;

verus! {

/// Reports that the crate is alive.
pub fn does() -> (r: bool)
    ensures
        r,
{
    true
}

} // verus!
