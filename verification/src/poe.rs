use vstd::prelude::*;
use crate::bytemap::{clone_bytes, ByteMap};
use crate::{AccountId, BlockNumber};

verus! {

/// Typed notification of a successful claims-registry operation. A transfer
/// reuses the creation event for the new owner; there is no distinct
/// transfer event.
#[derive(Debug, PartialEq)]
pub enum Event {
    ClaimCreated(AccountId, Vec<u8>),
    ClaimRevoked(AccountId, Vec<u8>),
}

/// A claims-registry rule violation.
#[derive(Clone, Copy, Debug, PartialEq, Eq, Structural)]
pub enum Error {
    ProofAlreadyExist,
    ClaimNotExist,
    NotClaimOwner,
}

/// Ghost view of an event.
pub enum EventV {
    ClaimCreated(AccountId, Seq<u8>),
    ClaimRevoked(AccountId, Seq<u8>),
}

impl View for Event {
    type V = EventV;

    open spec fn view(&self) -> EventV {
        match self {
            Event::ClaimCreated(owner, claim) => EventV::ClaimCreated(*owner, claim@),
            Event::ClaimRevoked(owner, claim) => EventV::ClaimRevoked(*owner, claim@),
        }
    }
}

/// The ghost views of a sequence of events, in order.
pub open spec fn event_views(es: Seq<Event>) -> Seq<EventV> {
    es.map_values(|e: Event| e@)
}

/// What `create_claim` decides and writes: a present key is a conflict; an
/// absent key is recorded for the sender at the current block height.
pub open spec fn spec_create_claim(
    proofs: Map<Seq<u8>, (AccountId, BlockNumber)>,
    sender: AccountId,
    now: BlockNumber,
    claim: Seq<u8>,
) -> (Map<Seq<u8>, (AccountId, BlockNumber)>, Result<(), Error>) {
    if proofs.contains_key(claim) {
        (proofs, Err(Error::ProofAlreadyExist))
    } else {
        (proofs.insert(claim, (sender, now)), Ok(()))
    }
}

/// What `revoke_claim` decides and writes: only the recorded owner may
/// remove the record; the key then reverts to absent.
pub open spec fn spec_revoke_claim(
    proofs: Map<Seq<u8>, (AccountId, BlockNumber)>,
    sender: AccountId,
    claim: Seq<u8>,
) -> (Map<Seq<u8>, (AccountId, BlockNumber)>, Result<(), Error>) {
    if !proofs.contains_key(claim) {
        (proofs, Err(Error::ClaimNotExist))
    } else if proofs[claim].0 != sender {
        (proofs, Err(Error::NotClaimOwner))
    } else {
        (proofs.remove(claim), Ok(()))
    }
}

/// What `transfer_claim` decides and writes: only the recorded owner may
/// overwrite the record with the new owner; the height is refreshed to the
/// transfer time.
pub open spec fn spec_transfer_claim(
    proofs: Map<Seq<u8>, (AccountId, BlockNumber)>,
    sender: AccountId,
    to: AccountId,
    now: BlockNumber,
    claim: Seq<u8>,
) -> (Map<Seq<u8>, (AccountId, BlockNumber)>, Result<(), Error>) {
    if !proofs.contains_key(claim) {
        (proofs, Err(Error::ClaimNotExist))
    } else if proofs[claim].0 != sender {
        (proofs, Err(Error::NotClaimOwner))
    } else {
        (proofs.insert(claim, (to, now)), Ok(()))
    }
}

/// The claims registry: ownership records keyed by opaque byte strings, the
/// host clock's current height, and the events recorded for successful
/// operations.
pub struct Pallet {
    proofs: ByteMap<(AccountId, BlockNumber)>,
    block_number: BlockNumber,
    events: Vec<Event>,
}

impl Pallet {
    /// Ownership records by claim key: the owner and the height at which the
    /// record was made.
    pub closed spec fn proofs_view(&self) -> Map<Seq<u8>, (AccountId, BlockNumber)> {
        self.proofs@
    }

    /// Events recorded so far, oldest first.
    pub closed spec fn events_view(&self) -> Seq<EventV> {
        event_views(self.events@)
    }

    /// The height the registry currently reads from the host clock.
    pub closed spec fn height(&self) -> BlockNumber {
        self.block_number
    }

    /// Well-formedness: the storage invariant.
    pub closed spec fn wf(&self) -> bool {
        self.proofs.wf()
    }

    /// An empty claims registry at height zero.
    pub fn new() -> (r: Self)
        ensures
            r.wf(),
            r.proofs_view() == Map::<Seq<u8>, (AccountId, BlockNumber)>::empty(),
            r.events_view() == Seq::<EventV>::empty(),
            r.height() == 0,
    {
        let r = Pallet { proofs: ByteMap::new(), block_number: 0, events: Vec::new() };
        proof {
            assert(r.events_view() =~= Seq::<EventV>::empty());
        }
        r
    }

    /// Advances the host clock's height; the clock is monotonically
    /// non-decreasing.
    pub fn set_block_number(&mut self, n: BlockNumber)
        requires
            old(self).wf(),
            n >= old(self).height(),
        ensures
            final(self).wf(),
            final(self).height() == n,
            final(self).proofs_view() == old(self).proofs_view(),
            final(self).events_view() == old(self).events_view(),
    {
        self.block_number = n;
    }

    /// The current block height.
    pub fn block_number(&self) -> (r: BlockNumber)
        ensures
            r == self.height(),
    {
        self.block_number
    }

    /// Records `claim` as owned by `sender` at the current height, unless
    /// the key is already claimed.
    pub fn create_claim(&mut self, sender: AccountId, claim: Vec<u8>) -> (r: Result<(), Error>)
        requires
            old(self).wf(),
        ensures
            final(self).wf(),
            final(self).height() == old(self).height(),
            r == spec_create_claim(old(self).proofs_view(), sender, old(self).height(), claim@).1,
            final(self).proofs_view() == spec_create_claim(
                old(self).proofs_view(),
                sender,
                old(self).height(),
                claim@,
            ).0,
            r is Ok ==> final(self).events_view() == old(self).events_view().push(
                EventV::ClaimCreated(sender, claim@),
            ),
            r is Err ==> *final(self) == *old(self),
    {
        if self.proofs.contains_key(&claim) {
            return Err(Error::ProofAlreadyExist);
        }
        let ghost claim_view = claim@;
        self.proofs.insert(clone_bytes(&claim), (sender, self.block_number));
        self.events.push(Event::ClaimCreated(sender, claim));
        proof {
            assert(self.events_view() =~= old(self).events_view().push(
                EventV::ClaimCreated(sender, claim_view),
            ));
        }
        Ok(())
    }

    /// Removes the record for `claim`, if `sender` is its recorded owner;
    /// the key reverts to absent and may be claimed again by anyone.
    pub fn revoke_claim(&mut self, sender: AccountId, claim: Vec<u8>) -> (r: Result<(), Error>)
        requires
            old(self).wf(),
        ensures
            final(self).wf(),
            final(self).height() == old(self).height(),
            r == spec_revoke_claim(old(self).proofs_view(), sender, claim@).1,
            final(self).proofs_view() == spec_revoke_claim(old(self).proofs_view(), sender, claim@).0,
            r is Ok ==> final(self).events_view() == old(self).events_view().push(
                EventV::ClaimRevoked(sender, claim@),
            ),
            r is Err ==> *final(self) == *old(self),
    {
        let owner = match self.proofs.get(&claim) {
            None => {
                return Err(Error::ClaimNotExist);
            }
            Some(record) => record.0,
        };
        if owner != sender {
            return Err(Error::NotClaimOwner);
        }
        let ghost claim_view = claim@;
        let _ = self.proofs.remove(&claim);
        self.events.push(Event::ClaimRevoked(sender, claim));
        proof {
            assert(self.events_view() =~= old(self).events_view().push(
                EventV::ClaimRevoked(sender, claim_view),
            ));
        }
        Ok(())
    }

    /// Hands the record for `claim` to `new_owner`, if `sender` is its
    /// recorded owner; the height is refreshed to the transfer time.
    pub fn transfer_claim(&mut self, sender: AccountId, new_owner: AccountId, claim: Vec<u8>) -> (r: Result<(), Error>)
        requires
            old(self).wf(),
        ensures
            final(self).wf(),
            final(self).height() == old(self).height(),
            r == spec_transfer_claim(old(self).proofs_view(), sender, new_owner, old(self).height(), claim@).1,
            final(self).proofs_view() == spec_transfer_claim(
                old(self).proofs_view(),
                sender,
                new_owner,
                old(self).height(),
                claim@,
            ).0,
            r is Ok ==> final(self).events_view() == old(self).events_view().push(
                EventV::ClaimCreated(new_owner, claim@),
            ),
            r is Err ==> *final(self) == *old(self),
    {
        let owner = match self.proofs.get(&claim) {
            None => {
                return Err(Error::ClaimNotExist);
            }
            Some(record) => record.0,
        };
        if owner != sender {
            return Err(Error::NotClaimOwner);
        }
        let ghost claim_view = claim@;
        self.proofs.insert(clone_bytes(&claim), (new_owner, self.block_number));
        self.events.push(Event::ClaimCreated(new_owner, claim));
        proof {
            assert(self.events_view() =~= old(self).events_view().push(
                EventV::ClaimCreated(new_owner, claim_view),
            ));
        }
        Ok(())
    }

    /// The ownership record under `claim`, if any.
    pub fn my_proofs(&self, claim: &Vec<u8>) -> (r: Option<(AccountId, BlockNumber)>)
        requires
            self.wf(),
        ensures
            match r {
                Some(record) => self.proofs_view().contains_key(claim@)
                    && record == self.proofs_view()[claim@],
                None => !self.proofs_view().contains_key(claim@),
            },
    {
        match self.proofs.get(claim) {
            Some(record) => Some(*record),
            None => None,
        }
    }

    /// The events recorded so far, oldest first.
    pub fn events(&self) -> (r: &Vec<Event>)
        ensures
            event_views(r@) == self.events_view(),
    {
        &self.events
    }
}

/// Claim lifecycle: an unclaimed key can be claimed, revoked by its owner,
/// and then claimed again by anyone — revocation makes the key reusable.
pub proof fn lemma_claim_key_reusable(
    proofs: Map<Seq<u8>, (AccountId, BlockNumber)>,
    first_owner: AccountId,
    second_owner: AccountId,
    claim: Seq<u8>,
    h1: BlockNumber,
    h2: BlockNumber,
)
    requires
        !proofs.contains_key(claim),
    ensures
        ({
            let (m1, r1) = spec_create_claim(proofs, first_owner, h1, claim);
            let (m2, r2) = spec_revoke_claim(m1, first_owner, claim);
            let (m3, r3) = spec_create_claim(m2, second_owner, h2, claim);
            &&& r1 == Ok::<(), Error>(())
            &&& r2 == Ok::<(), Error>(())
            &&& r3 == Ok::<(), Error>(())
            &&& m3[claim] == (second_owner, h2)
        }),
{
    let (m1, r1) = spec_create_claim(proofs, first_owner, h1, claim);
    let (m2, r2) = spec_revoke_claim(m1, first_owner, claim);
    assert(!m2.contains_key(claim));
}

/// Authorization: a caller other than the recorded owner can neither revoke
/// nor transfer a claim; the attempt fails with `NotClaimOwner` and the
/// registry's records are untouched.
pub proof fn lemma_non_owner_cannot_mutate(
    proofs: Map<Seq<u8>, (AccountId, BlockNumber)>,
    caller: AccountId,
    to: AccountId,
    now: BlockNumber,
    claim: Seq<u8>,
)
    requires
        proofs.contains_key(claim),
        proofs[claim].0 != caller,
    ensures
        spec_revoke_claim(proofs, caller, claim)
            == (proofs, Err::<(), Error>(Error::NotClaimOwner)),
        spec_transfer_claim(proofs, caller, to, now, claim)
            == (proofs, Err::<(), Error>(Error::NotClaimOwner)),
{
}

} // verus!
