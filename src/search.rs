//! The parts of the parallel search that decide: the share of the budget that
//! each worker gets, the single-assignment result slot, and one worker's
//! generate/validate loop. Threads and the lock round the slot stand outside
//! the library; a worker learns whether the slot is taken through a poll that
//! it is handed.
use crate::keys::{generate, public_of, KeyPair};
use crate::validator::{key_matches, validate_key};
use vstd::prelude::*;

verus! {

/// The number of cycles each of `workers` workers may run out of `budget`;
/// the remainder is not searched.
pub fn worker_share(budget: usize, workers: usize) -> (r: usize)
    ensures
        r == if workers == 0 { 0 } else { budget / workers },
{
    if workers == 0 {
        0
    } else {
        budget / workers
    }
}

/// What the slot holds after one claim of `kp`.
pub open spec fn claim_step(slot: Option<KeyPair>, kp: KeyPair) -> Option<KeyPair> {
    if slot.is_none() {
        Some(kp)
    } else {
        slot
    }
}

/// What the slot holds after a series of claims, in order.
pub open spec fn after_claims(slot: Option<KeyPair>, claims: Seq<KeyPair>) -> Option<KeyPair>
    decreases claims.len(),
{
    if claims.len() == 0 {
        slot
    } else {
        after_claims(claim_step(slot, claims[0]), claims.drop_first())
    }
}

/// A cell that goes at most once from empty to holding a winning keypair.
pub struct ResultSlot {
    winner: Option<KeyPair>,
}

impl ResultSlot {
    /// What the slot holds.
    pub closed spec fn contents(&self) -> Option<KeyPair> {
        self.winner
    }

    /// An empty slot.
    pub fn new() -> (r: ResultSlot)
        ensures
            r.contents().is_none(),
    {
        ResultSlot { winner: None }
    }

    /// Whether a winner has been stored.
    pub fn is_occupied(&self) -> (r: bool)
        ensures
            r == self.contents().is_some(),
    {
        self.winner.is_some()
    }

    /// Stores `kp` if the slot is empty and says whether it did; a slot that
    /// holds a winner keeps it.
    pub fn claim(&mut self, kp: KeyPair) -> (won: bool)
        ensures
            won == old(self).contents().is_none(),
            final(self).contents() == claim_step(old(self).contents(), kp),
    {
        if self.winner.is_none() {
            self.winner = Some(kp);
            true
        } else {
            false
        }
    }

    /// The winner, if there is one.
    pub fn into_winner(self) -> (r: Option<KeyPair>)
        ensures
            r == self.contents(),
    {
        self.winner
    }
}

/// The slot is written exactly once: after any series of claims on an empty
/// slot it holds the first claimed keypair, and nothing when there was none.
pub proof fn lemma_first_claim_wins(claims: Seq<KeyPair>)
    ensures
        after_claims(None, claims) == if claims.len() == 0 {
            None
        } else {
            Some(claims[0])
        },
{
    if claims.len() > 0 {
        lemma_occupied_slot_kept(claims[0], claims.drop_first());
    }
}

/// Claims on a slot that holds a winner never change it.
pub proof fn lemma_occupied_slot_kept(winner: KeyPair, claims: Seq<KeyPair>)
    ensures
        after_claims(Some(winner), claims) == Some(winner),
    decreases claims.len(),
{
    if claims.len() > 0 {
        lemma_occupied_slot_kept(winner, claims.drop_first());
    }
}

/// How one worker's loop ended.
pub struct WorkerReport {
    /// The generate/validate cycles it ran.
    pub cycles: usize,
    /// The candidate that passed the validator, if one did.
    pub found: Option<KeyPair>,
    /// The keypairs drawn, one per cycle, in order.
    pub drawn: Ghost<Seq<KeyPair>>,
}

/// Each keypair of the record is a generated one: both halves 32 bytes, the
/// public key derived from the seed.
pub open spec fn all_generated(drawn: Seq<KeyPair>) -> bool {
    forall|i: int|
        0 <= i < drawn.len() ==> #[trigger] drawn[i].wf() && drawn[i].public@ == public_of(
            drawn[i].secret@,
        )
}

/// One worker: before each cycle it stops if its share is spent or the slot
/// is taken; a cycle generates a keypair and hands its public key to
/// `accept`. The first accepted keypair ends the loop and is returned, for the
/// caller to claim; every keypair drawn before it was refused.
pub fn run_worker<V, P>(share: usize, accept: &V, slot_taken: &P) -> (r: WorkerReport) where
    V: Fn(&Vec<u8>) -> bool,
    P: Fn() -> bool,

    requires
        forall|k: &Vec<u8>| k@.len() == 32 ==> #[trigger] accept.requires((k,)),
        slot_taken.requires(()),
    ensures
        r.cycles <= share,
        r.drawn@.len() == r.cycles,
        all_generated(r.drawn@),
        r.found.is_none() && r.cycles < share ==> slot_taken.ensures((), true),
        r.found.is_some() ==> r.cycles >= 1 && r.found == Some(r.drawn@.last()),
        match r.found {
            Some(kp) => accept.ensures((&kp.public,), true),
            None => true,
        },
        forall|i: int|
            0 <= i < r.drawn@.len() && !(r.found.is_some() && i == r.drawn@.len() - 1)
                ==> accept.ensures((&(#[trigger] r.drawn@[i]).public,), false),
        (forall|k: &Vec<u8>, b: bool| #[trigger] accept.ensures((k,), b) ==> !b) ==> r.found.is_none(),
        (forall|k: &Vec<u8>, b: bool| #[trigger] accept.ensures((k,), b) ==> b) ==> {
            &&& r.cycles <= 1
            &&& r.cycles == 1 <==> r.found.is_some()
        },
{
    let mut cycles: usize = 0;
    let ghost mut drawn: Seq<KeyPair> = Seq::empty();
    loop
        invariant
            cycles <= share,
            drawn.len() == cycles,
            all_generated(drawn),
            forall|i: int|
                0 <= i < drawn.len() ==> accept.ensures((&(#[trigger] drawn[i]).public,), false),
            forall|k: &Vec<u8>| k@.len() == 32 ==> #[trigger] accept.requires((k,)),
            slot_taken.requires(()),
            (forall|k: &Vec<u8>, b: bool| #[trigger] accept.ensures((k,), b) ==> b) ==> cycles == 0,
        decreases share - cycles,
    {
        if cycles >= share {
            return WorkerReport { cycles, found: None, drawn: Ghost(drawn) };
        }
        if slot_taken() {
            return WorkerReport { cycles, found: None, drawn: Ghost(drawn) };
        }
        let kp = generate();
        cycles = cycles + 1;
        let accepted = accept(&kp.public);
        proof {
            drawn = drawn.push(kp);
        }
        if accepted {
            return WorkerReport { cycles, found: Some(kp), drawn: Ghost(drawn) };
        }
    }
}

/// One worker of the vanity search for `year`: `run_worker` with the
/// validator. A returned candidate is the last keypair drawn and carries the
/// year's tag; every keypair drawn before it does not.
pub fn search_worker<P>(share: usize, year: u8, slot_taken: &P) -> (r: WorkerReport) where
    P: Fn() -> bool,

    requires
        slot_taken.requires(()),
    ensures
        r.cycles <= share,
        r.drawn@.len() == r.cycles,
        all_generated(r.drawn@),
        r.found.is_none() && r.cycles < share ==> slot_taken.ensures((), true),
        r.found.is_some() ==> r.cycles >= 1 && r.found == Some(r.drawn@.last()),
        match r.found {
            Some(kp) => key_matches(kp.public@, year),
            None => true,
        },
        forall|i: int|
            0 <= i < r.drawn@.len() && !(r.found.is_some() && i == r.drawn@.len() - 1)
                ==> !key_matches((#[trigger] r.drawn@[i]).public@, year),
{
    let accept = |k: &Vec<u8>| -> (b: bool)
        requires
            k@.len() == 32,
        ensures
            b == key_matches(k@, year),
        { validate_key(k.as_slice(), year) };
    let r = run_worker(share, &accept, slot_taken);
    proof {
        assert forall|i: int|
            0 <= i < r.drawn@.len() && !(r.found.is_some() && i == r.drawn@.len() - 1)
            implies !key_matches((#[trigger] r.drawn@[i]).public@, year) by {
            assert(accept.ensures((&r.drawn@[i].public,), false));
        }
    }
    r
}

} // verus!
