//! The record store: fixed-size slots of bytes, each found by the address
//! that its kind, its owner and its id give.

use crate::errors::ErrorCode;
use crate::identity::{lemma_identity_by_bytes, Identity};
use crate::layout::{put_bytes, put_zeros, zeros};
use vstd::prelude::*;
use vstd::slice::*;

verus! {

/// What a store holds: the bytes of each allocated slot, by address.
pub type Slots = Map<Address, Seq<u8>>;

/// The kinds of record.
#[derive(Clone, Copy, Debug, PartialEq, Eq, Structural, Hash)]
pub enum EntityKind {
    UserProfile,
    Track,
    Playlist,
}

impl EntityKind {
    /// The signal that no record of this kind was found.
    pub open spec fn missing(self) -> ErrorCode {
        match self {
            EntityKind::UserProfile => ErrorCode::UserProfileNotFound,
            EntityKind::Track => ErrorCode::TrackNotFound,
            EntityKind::Playlist => ErrorCode::PlaylistNotFound,
        }
    }

    /// The signal that no record of this kind was found.
    pub fn not_found(&self) -> (e: ErrorCode)
        ensures
            e == self.missing(),
    {
        match self {
            EntityKind::UserProfile => ErrorCode::UserProfileNotFound,
            EntityKind::Track => ErrorCode::TrackNotFound,
            EntityKind::Playlist => ErrorCode::PlaylistNotFound,
        }
    }
}

/// Where a record is stored. An address is its own key: it holds the kind,
/// the owner and the owner's id for the record, so two records share an
/// address only if they share all three.
#[derive(Clone, Copy, Debug, Eq)]
pub struct Address {
    pub kind: EntityKind,
    pub owner: Identity,
    /// Zero for a profile, of which an owner has one.
    pub local_id: u64,
}

impl PartialEq for Address {
    fn eq(&self, other: &Address) -> (r: bool) {
        self.kind == other.kind && self.owner == other.owner && self.local_id == other.local_id
    }
}

impl vstd::std_specs::cmp::PartialEqSpecImpl for Address {
    open spec fn obeys_eq_spec() -> bool {
        true
    }

    open spec fn eq_spec(&self, other: &Address) -> bool {
        *self == *other
    }
}

/// The address of the record of the given kind that `owner` knows by
/// `local_id`. A profile has no id: whatever is given is left out.
pub open spec fn address_of(kind: EntityKind, owner: Identity, local_id: u64) -> Address {
    Address {
        kind,
        owner,
        local_id: if kind is UserProfile {
            0
        } else {
            local_id
        },
    }
}

/// Derives the address of a record.
pub fn derive_address(kind: EntityKind, owner: &Identity, local_id: u64) -> (address: Address)
    ensures
        address == address_of(kind, *owner, local_id),
{
    let local_id = match kind {
        EntityKind::UserProfile => 0,
        _ => local_id,
    };
    Address { kind, owner: *owner, local_id }
}

/// Addresses collide only where they must: the kinds and the owners are the
/// same, and so are the ids unless the records are profiles.
pub proof fn lemma_address_collision_free(
    kind: EntityKind,
    owner: Identity,
    local_id: u64,
    other_kind: EntityKind,
    other_owner: Identity,
    other_local_id: u64,
)
    ensures
        address_of(kind, owner, local_id) == address_of(other_kind, other_owner, other_local_id)
            <==> kind == other_kind && owner@ == other_owner@ && (kind is UserProfile || local_id
            == other_local_id),
{
    lemma_identity_by_bytes(owner, other_owner);
}

struct Slot {
    address: Address,
    bytes: Vec<u8>,
}

/// The slots that have been allocated, each with the bytes it holds. Its
/// view is the map from the allocated addresses to those bytes.
pub struct RecordStore {
    slots: Vec<Slot>,
}

/// Whether the slot at position `i` is the one for `address`.
spec fn at(slots: Seq<Slot>, address: Address, i: int) -> bool {
    0 <= i < slots.len() && slots[i].address == address
}

/// No two slots have the same address.
spec fn distinct(slots: Seq<Slot>) -> bool {
    forall|i: int, j: int|
        0 <= i < j < slots.len() ==> (#[trigger] slots[i]).address != (#[trigger] slots[j]).address
}

/// What the given slots hold, by address.
spec fn contents(slots: Seq<Slot>) -> Slots {
    Map::new(
        |address: Address| exists|i: int| at(slots, address, i),
        |address: Address| slots[choose|i: int| at(slots, address, i)].bytes@,
    )
}

proof fn lemma_contents_at(slots: Seq<Slot>, i: int)
    requires
        distinct(slots),
        0 <= i < slots.len(),
    ensures
        contents(slots).contains_key(slots[i].address),
        contents(slots)[slots[i].address] == slots[i].bytes@,
{
    let address = slots[i].address;
    assert(at(slots, address, i));
    let chosen = choose|j: int| at(slots, address, j);
    assert(at(slots, address, chosen));
    assert(chosen == i);
}

impl View for RecordStore {
    type V = Slots;

    closed spec fn view(&self) -> Slots {
        contents(self.slots@)
    }
}

impl RecordStore {
    #[verifier::type_invariant]
    spec fn wf(self) -> bool {
        distinct(self.slots@)
    }

    /// A store with nothing allocated.
    pub fn new() -> (store: RecordStore)
        ensures
            store@ == Slots::empty(),
    {
        let store = RecordStore { slots: Vec::new() };
        assert(store@ =~= Slots::empty());
        store
    }

    /// Position of the slot for `address`, if one is allocated.
    fn find(&self, address: &Address) -> (r: Option<usize>)
        ensures
            match r {
                Some(i) => at(self.slots@, *address, i as int),
                None => !self@.contains_key(*address),
            },
    {
        let mut i: usize = 0;
        while i < self.slots.len()
            invariant
                i <= self.slots@.len(),
                forall|j: int| 0 <= j < i ==> !at(self.slots@, *address, j),
            decreases self.slots@.len() - i,
        {
            if self.slots[i].address == *address {
                return Some(i);
            }
            i += 1;
        }
        None
    }

    /// Whether a slot is allocated at `address`.
    pub fn contains(&self, address: &Address) -> (b: bool)
        ensures
            b == self@.contains_key(*address),
    {
        proof {
            use_type_invariant(self);
        }
        match self.find(address) {
            Some(i) => {
                proof {
                    lemma_contents_at(self.slots@, i as int);
                }
                true
            },
            None => false,
        }
    }

    /// Allocates a slot of `footprint` zero bytes at `address`, or refuses
    /// where the address is taken.
    pub fn create(&mut self, address: Address, footprint: usize) -> (r: Result<(), ErrorCode>)
        ensures
            r == create_outcome(old(self)@, address),
            final(self)@ == create_effect(old(self)@, address, footprint as nat),
    {
        proof {
            use_type_invariant(&*self);
        }
        match self.find(&address) {
            Some(i) => {
                proof {
                    lemma_contents_at(self.slots@, i as int);
                }
                Err(ErrorCode::AlreadyExists)
            },
            None => {
                let mut bytes: Vec<u8> = Vec::new();
                put_zeros(&mut bytes, footprint);
                assert(bytes@ =~= zeros(footprint as nat));
                let ghost before = self.slots@;
                let mut slots: Vec<Slot> = Vec::new();
                core::mem::swap(&mut self.slots, &mut slots);
                slots.push(Slot { address, bytes });
                proof {
                    let after = slots@;
                    assert forall|i: int, j: int| 0 <= i < j < after.len() implies (
                        #[trigger] after[i]
                    ).address != (#[trigger] after[j]).address by {
                        if j == before.len() {
                            assert(!at(before, address, i));
                        }
                    }
                    lemma_push(before, after);
                }
                self.slots = slots;
                Ok(())
            },
        }
    }

    /// The bytes in the slot at `address`.
    pub fn read(&self, address: &Address) -> (r: Result<Vec<u8>, ErrorCode>)
        ensures
            match r {
                Ok(bytes) => self@.contains_key(*address) && bytes@ == self@[*address],
                Err(e) => !self@.contains_key(*address) && e == address.kind.missing(),
            },
    {
        proof {
            use_type_invariant(self);
        }
        match self.find(address) {
            Some(i) => {
                proof {
                    lemma_contents_at(self.slots@, i as int);
                }
                Ok(slice_to_vec(self.slots[i].bytes.as_slice()))
            },
            None => Err(address.kind.not_found()),
        }
    }

    /// Replaces what the slot at `address` holds. The slot keeps its
    /// footprint: a record that is shorter is followed by zeros, and one that
    /// is longer is refused.
    pub fn write(&mut self, address: &Address, record: &[u8]) -> (r: Result<(), ErrorCode>)
        ensures
            r == write_outcome(old(self)@, *address, record@),
            final(self)@ == write_effect(old(self)@, *address, record@),
    {
        proof {
            use_type_invariant(&*self);
            axiom_spec_len(record);
        }
        let i: usize = match self.find(address) {
            Some(i) => i,
            None => {
                return Err(address.kind.not_found());
            },
        };
        proof {
            lemma_contents_at(self.slots@, i as int);
        }
        let footprint: usize = self.slots[i].bytes.len();
        if record.len() > footprint {
            return Err(ErrorCode::InvalidInputData);
        }
        let mut bytes: Vec<u8> = Vec::new();
        put_bytes(&mut bytes, record);
        put_zeros(&mut bytes, footprint - record.len());
        let ghost before = self.slots@;
        let ghost stored = bytes@;
        let mut slots: Vec<Slot> = Vec::new();
        core::mem::swap(&mut self.slots, &mut slots);
        slots[i] = Slot { address: *address, bytes };
        proof {
            assert(stored =~= padded(record@, footprint as nat));
            lemma_update(before, slots@, i as int);
        }
        self.slots = slots;
        Ok(())
    }
}

/// How [`RecordStore::create`] ends.
pub open spec fn create_outcome(store: Slots, address: Address) -> Result<(), ErrorCode> {
    if store.contains_key(address) {
        Err(ErrorCode::AlreadyExists)
    } else {
        Ok(())
    }
}

/// What [`RecordStore::create`] leaves in the store.
pub open spec fn create_effect(store: Slots, address: Address, footprint: nat) -> Slots {
    if create_outcome(store, address) is Ok {
        store.insert(address, zeros(footprint))
    } else {
        store
    }
}

/// `record`, followed by zeros up to `footprint` bytes.
pub open spec fn padded(record: Seq<u8>, footprint: nat) -> Seq<u8>
    recommends
        record.len() <= footprint,
{
    record + zeros((footprint - record.len()) as nat)
}

/// How [`RecordStore::write`] ends.
pub open spec fn write_outcome(store: Slots, address: Address, record: Seq<u8>) -> Result<
    (),
    ErrorCode,
> {
    if !store.contains_key(address) {
        Err(address.kind.missing())
    } else if record.len() > store[address].len() {
        Err(ErrorCode::InvalidInputData)
    } else {
        Ok(())
    }
}

/// What [`RecordStore::write`] leaves in the store.
pub open spec fn write_effect(store: Slots, address: Address, record: Seq<u8>) -> Slots {
    if write_outcome(store, address, record) is Ok {
        store.insert(address, padded(record, store[address].len()))
    } else {
        store
    }
}

/// A write leaves every slot allocated and as large as it was, and touches
/// none but the one it is addressed to.
pub proof fn lemma_write_keeps_footprints(
    store: Slots,
    address: Address,
    record: Seq<u8>,
    other: Address,
)
    requires
        store.contains_key(other),
    ensures
        write_effect(store, address, record).contains_key(other),
        write_effect(store, address, record)[other].len() == store[other].len(),
        other != address ==> write_effect(store, address, record)[other] == store[other],
{
}

proof fn lemma_push(before: Seq<Slot>, after: Seq<Slot>)
    requires
        distinct(after),
        after.len() == before.len() + 1,
        forall|i: int| 0 <= i < before.len() ==> after[i] == before[i],
    ensures
        contents(after) == contents(before).insert(after.last().address, after.last().bytes@),
{
    let added = after.last();
    let target = contents(before).insert(added.address, added.bytes@);
    assert forall|address: Address| contents(after).contains_key(address) implies (
    #[trigger] target.contains_key(address)) && target[address] == contents(after)[address] by {
        let i = choose|i: int| at(after, address, i);
        lemma_contents_at(after, i);
        if i < before.len() {
            assert(at(before, address, i));
            assert(distinct(before));
            lemma_contents_at(before, i);
        }
    }
    assert forall|address: Address| target.contains_key(address) implies (
    #[trigger] contents(after).contains_key(address)) by {
        if address == added.address {
            assert(at(after, address, before.len() as int));
        } else {
            let i = choose|i: int| at(before, address, i);
            assert(at(after, address, i));
        }
    }
    assert(contents(after) =~= target);
}

proof fn lemma_update(before: Seq<Slot>, after: Seq<Slot>, at_slot: int)
    requires
        distinct(before),
        0 <= at_slot < before.len(),
        after.len() == before.len(),
        forall|i: int| 0 <= i < before.len() && i != at_slot ==> after[i] == before[i],
        after[at_slot].address == before[at_slot].address,
    ensures
        distinct(after),
        contents(after) == contents(before).insert(
            before[at_slot].address,
            after[at_slot].bytes@,
        ),
{
    assert forall|i: int, j: int| 0 <= i < j < after.len() implies (#[trigger] after[i]).address
        != (#[trigger] after[j]).address by {
        assert(before[i].address != before[j].address);
    }
    let target = contents(before).insert(before[at_slot].address, after[at_slot].bytes@);
    assert forall|address: Address| contents(after).contains_key(address) implies (
    #[trigger] target.contains_key(address)) && target[address] == contents(after)[address] by {
        let i = choose|i: int| at(after, address, i);
        lemma_contents_at(after, i);
        assert(at(before, address, i));
        lemma_contents_at(before, i);
    }
    assert forall|address: Address| target.contains_key(address) implies (
    #[trigger] contents(after).contains_key(address)) by {
        if address == before[at_slot].address {
            assert(at(after, address, at_slot));
        } else {
            let i = choose|i: int| at(before, address, i);
            assert(at(after, address, i));
        }
    }
    assert(contents(after) =~= target);
}

} // verus!
