//! The runtime that owns one instance of each module.

use vstd::prelude::*;

use crate::balances;
use crate::system;

verus! {

/// One chain state and one ledger, driven together by the caller.
pub struct Runtime {
    pub system: system::Pallet,
    pub balances: balances::Pallet,
}

impl Runtime {
    /// A runtime at block zero, with no nonces and no balances.
    pub fn new() -> (r: Runtime)
        ensures
            r.system.wf(),
            r.system.block_spec() == 0,
            r.system.nonces() == Map::<Seq<char>, u128>::empty(),
            r.balances.wf(),
            r.balances@ == Map::<Seq<char>, u128>::empty(),
    {
        Runtime { system: system::Pallet::new(), balances: balances::Pallet::new() }
    }
}

} // verus!
