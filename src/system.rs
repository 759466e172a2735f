//! The chain state: the current block number and a nonce for each account.

use vstd::prelude::*;

use crate::accounts::AccountMap;

verus! {

/// The nonce of `who` in `m`: its entry, or zero where it has none.
pub open spec fn nonce_in(m: Map<Seq<char>, u128>, who: Seq<char>) -> u128 {
    if m.contains_key(who) {
        m[who]
    } else {
        0
    }
}

/// The nonces `m` after one increment of the nonce of `who`.
pub open spec fn after_inc_nonce(m: Map<Seq<char>, u128>, who: Seq<char>) -> Map<Seq<char>, u128> {
    m.insert(who, (nonce_in(m, who) + 1) as u128)
}

/// The system module: block progression and per-account transaction counts.
pub struct Pallet {
    block_number: u32,
    nonce: AccountMap,
}

impl Pallet {
    /// The current block number.
    pub closed spec fn block_spec(&self) -> u32 {
        self.block_number
    }

    /// The stored nonces, by account identifier.
    pub closed spec fn nonces(&self) -> Map<Seq<char>, u128> {
        self.nonce@
    }

    /// The nonce storage is well formed.
    pub closed spec fn wf(&self) -> bool {
        self.nonce.wf()
    }

    /// Block number zero and no nonces.
    pub fn new() -> (r: Pallet)
        ensures
            r.wf(),
            r.block_spec() == 0,
            r.nonces() == Map::<Seq<char>, u128>::empty(),
    {
        Pallet { block_number: 0, nonce: AccountMap::new() }
    }

    /// The current block number.
    pub fn block_number(&self) -> (r: u32)
        ensures
            r == self.block_spec(),
    {
        self.block_number
    }

    /// Advances the block number by one. The counter does not wrap: the
    /// caller keeps it below `u32::MAX`.
    pub fn inc_block_number(&mut self)
        requires
            old(self).wf(),
            old(self).block_spec() < u32::MAX,
        ensures
            final(self).wf(),
            final(self).block_spec() == old(self).block_spec() + 1,
            final(self).nonces() == old(self).nonces(),
    {
        self.block_number = self.block_number + 1;
    }

    /// The nonce of `who`; zero where it has none.
    pub fn nonce(&self, who: &String) -> (r: u128)
        requires
            self.wf(),
        ensures
            r == nonce_in(self.nonces(), who@),
    {
        match self.nonce.get(who) {
            Some(n) => n,
            None => 0,
        }
    }

    /// The stored nonce of `who`, or `None` where it was never incremented.
    pub fn stored_nonce(&self, who: &String) -> (r: Option<u128>)
        requires
            self.wf(),
        ensures
            r == (if self.nonces().contains_key(who@) {
                Some(self.nonces()[who@])
            } else {
                None::<u128>
            }),
    {
        self.nonce.get(who)
    }

    /// Increments the nonce of `who` by one; an account without a nonce gets
    /// nonce one. The nonce does not wrap: the caller keeps it below
    /// `u128::MAX`.
    pub fn inc_nonce(&mut self, who: &String)
        requires
            old(self).wf(),
            nonce_in(old(self).nonces(), who@) < u128::MAX,
        ensures
            final(self).wf(),
            final(self).nonces() == after_inc_nonce(old(self).nonces(), who@),
            nonce_in(final(self).nonces(), who@) == nonce_in(old(self).nonces(), who@) + 1,
            final(self).block_spec() == old(self).block_spec(),
    {
        let n = self.nonce(who);
        self.nonce.insert(who, n + 1);
    }
}

/// Starting from nonce zero, `n` increments of the nonce of `a` leave it at
/// `n`: each of `states` after the first is what `inc_nonce(a)` makes of the
/// one before.
pub proof fn lemma_nonce_counts_increments(states: Seq<Pallet>, a: Seq<char>)
    requires
        states.len() >= 1,
        nonce_in(states[0].nonces(), a) == 0,
        forall|i: int|
            0 <= i < states.len() - 1 ==> #[trigger] states[i + 1].nonces() == after_inc_nonce(
                states[i].nonces(),
                a,
            ),
        states.len() - 1 <= u128::MAX,
    ensures
        nonce_in(states[states.len() - 1].nonces(), a) == states.len() - 1,
    decreases states.len(),
{
    if states.len() > 1 {
        let prefix = states.drop_last();
        assert(forall|i: int|
            0 <= i < prefix.len() - 1 ==> prefix[i + 1] == #[trigger] states[i + 1]);
        lemma_nonce_counts_increments(prefix, a);
        assert(states[states.len() - 1].nonces() == after_inc_nonce(
            states[states.len() - 2].nonces(),
            a,
        ));
    }
}

/// Starting from block zero, `n` increments of the block number leave it at
/// `n`: each of `states` after the first is what `inc_block_number` makes of
/// the one before.
pub proof fn lemma_block_counts_increments(states: Seq<Pallet>)
    requires
        states.len() >= 1,
        states[0].block_spec() == 0,
        forall|i: int|
            0 <= i < states.len() - 1 ==> #[trigger] states[i + 1].block_spec() == states[i].block_spec()
                + 1,
    ensures
        states[states.len() - 1].block_spec() == states.len() - 1,
    decreases states.len(),
{
    if states.len() > 1 {
        let prefix = states.drop_last();
        assert(forall|i: int|
            0 <= i < prefix.len() - 1 ==> prefix[i + 1] == #[trigger] states[i + 1]);
        lemma_block_counts_increments(prefix);
        assert(states[states.len() - 1].block_spec() == states[states.len() - 2].block_spec() + 1);
    }
}

} // verus!
