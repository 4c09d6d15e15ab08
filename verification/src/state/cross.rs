//! The boundary between the side that writes the shared storage and the
//! side that reads it, and the two ways to cross it.

use vstd::prelude::*;

use crate::render::buffer::StorageSection;
use crate::render::sync::holds;
use crate::render::sync::fences_in;
use crate::render::sync::fences_of;
use crate::render::sync::kept_after;
use crate::render::sync::lemma_step_accounts;
use crate::render::sync::polled;
use crate::render::sync::released_by;
use crate::render::sync::BarrierStep;
use crate::render::sync::Fence;
use crate::render::sync::SyncBarrier;
use crate::render::sync::SyncState;

verus! {

/// The section that is current after a producer has arrived at a boundary
/// whose current section is `current` and whose lock word is `bits`: the
/// section after `current` if it is not locked, else `current` still.
pub open spec fn crossed(current: StorageSection, bits: u8) -> StorageSection {
    if holds(bits, current.successor()) {
        current
    } else {
        current.successor()
    }
}

/// The section that is current after one producer has arrived for each of
/// the lock words `words`, first to last.
pub open spec fn crossed_all(current: StorageSection, words: Seq<u8>) -> StorageSection
    decreases words.len(),
{
    if words.len() == 0 {
        current
    } else {
        crossed(crossed_all(current, words.drop_last()), words.last())
    }
}

/// How many of those producers were let through.
pub open spec fn admitted(current: StorageSection, words: Seq<u8>) -> nat
    decreases words.len(),
{
    if words.len() == 0 {
        0
    } else {
        let before = crossed_all(current, words.drop_last());
        admitted(current, words.drop_last()) + (if holds(words.last(), before.successor()) {
            0nat
        } else {
            1nat
        })
    }
}

/// Section rotation: whatever the lock words were, the current section has
/// advanced once for each producer that was let through, and not at all for
/// the others. No section is skipped.
pub proof fn lemma_crossings_rotate(current: StorageSection, words: Seq<u8>)
    ensures
        crossed_all(current, words) == current.advanced(admitted(current, words)),
    decreases words.len(),
{
    if words.len() > 0 {
        lemma_crossings_rotate(current, words.drop_last());
    }
}

/// From a new boundary, the producers that are let through make the
/// sections current in the order `Front`, `Back`, `Spare`, `Front`, and so
/// on.
pub proof fn lemma_crossings_from_spare(words: Seq<u8>)
    ensures
        crossed_all(StorageSection::Spare, words) == (if admitted(StorageSection::Spare, words) % 3
            == 0 {
            StorageSection::Spare
        } else if admitted(StorageSection::Spare, words) % 3 == 1 {
            StorageSection::Front
        } else {
            StorageSection::Back
        }),
{
    lemma_crossings_rotate(StorageSection::Spare, words);
    StorageSection::lemma_rotation_from_spare(admitted(StorageSection::Spare, words));
}

/// The shared storage boundary.
///
/// It holds the storage itself, the section of the storage that is current,
/// and the lock word that says which sections the device still reads.
///
/// The section that is current is the one that was written last and is read
/// now. The section after it is the one that is written next. The third is
/// idle.
///
/// The boundary is a plain value: it says what the state is and what each
/// crossing does to it. Where the two sides run at the same time, the side
/// that shares the state keeps the current section and the lock word in one
/// atomic byte each.
#[derive(Debug)]
pub struct Boundary<Storage> {
    storage: Storage,
    working_section: StorageSection,
    sync_cache: SyncState,
}

impl<Storage> Boundary<Storage> {
    /// The storage.
    pub closed spec fn held(&self) -> Storage {
        self.storage
    }

    /// The section that is current.
    pub closed spec fn current(&self) -> StorageSection {
        self.working_section
    }

    /// The lock word.
    pub closed spec fn cache(&self) -> SyncState {
        self.sync_cache
    }

    /// The section that a producer writes next.
    pub open spec fn target(&self) -> StorageSection {
        self.current().successor()
    }

    /// A producer that arrives now is let through.
    pub open spec fn admits(&self) -> bool {
        !self.cache().locked(self.target())
    }

    /// No aliasing: the section that a producer writes is not the one that
    /// is current, which a consumer reads; and it is not written again
    /// before two more sections were: the section after it is neither of
    /// the two.
    pub proof fn lemma_no_aliasing(&self)
        ensures
            self.target() != self.current(),
            self.target().successor() != self.current(),
            self.target().successor() != self.target(),
            self.target().successor().successor() == self.current(),
    {
        self.current().lemma_successor_differs();
    }

    /// A boundary around `storage`. The current section is the spare one,
    /// so that the first section to be written is the front one. No section
    /// is locked.
    pub fn new(storage: Storage) -> (boundary: Self)
        ensures
            boundary.held() == storage,
            boundary.current() == StorageSection::Spare,
            boundary.cache().bits() == 0,
            forall|section: StorageSection| !boundary.cache().locked(section),
    {
        let working_section = StorageSection::Spare;
        let sync_cache = SyncState::new();
        Self { storage, working_section, sync_cache }
    }

    /// The storage.
    pub fn storage(&self) -> (storage: &Storage)
        ensures
            *storage == self.held(),
    {
        &self.storage
    }

    /// The storage, for writing. The current section and the lock word stay
    /// as they are.
    pub fn storage_mut(&mut self) -> (storage: &mut Storage)
        ensures
            *storage == old(self).held(),
            final(self).held() == *final(storage),
            final(self).current() == old(self).current(),
            final(self).cache() == old(self).cache(),
    {
        &mut self.storage
    }

    /// The section that is current: the one that was written last.
    pub fn current_section(&self) -> (section: StorageSection)
        ensures
            section == self.current(),
    {
        self.working_section
    }

    /// Make the section after the current one the current one.
    pub fn advance_section(&mut self)
        ensures
            final(self).current() == old(self).current().successor(),
            final(self).held() == old(self).held(),
            final(self).cache() == old(self).cache(),
    {
        self.working_section = self.working_section.next();
    }

    /// The lock word.
    pub fn sync_cache(&self) -> (cache: &SyncState)
        ensures
            *cache == self.cache(),
    {
        &self.sync_cache
    }

    /// The lock word, for writing: the side that shares the lock word with
    /// the render side copies the shared word in here before a producer
    /// arrives. The storage and the current section stay as they are.
    pub fn sync_cache_mut(&mut self) -> (cache: &mut SyncState)
        ensures
            *cache == old(self).cache(),
            final(self).cache() == *final(cache),
            final(self).held() == old(self).held(),
            final(self).current() == old(self).current(),
    {
        &mut self.sync_cache
    }

    /// Refresh the lock word from what polling the fences of `barrier` has
    /// reported: see [`SyncBarrier::fetch`]. A section is locked
    /// afterwards if and only if its fence is still in its slot or its slot
    /// was marked. The fences that were passed are returned, for the caller
    /// to delete.
    pub fn sync(&mut self, barrier: &mut SyncBarrier, signalled: [bool; 3]) -> (released: [Option<
        Fence,
    >; 3])
        ensures
            final(self).held() == old(self).held(),
            final(self).current() == old(self).current(),
            final(barrier).held() == kept_after(old(barrier).held(), signalled@),
            final(barrier).marked() == seq![false, false, false],
            released@ == released_by(old(barrier).held(), signalled@),
            forall|s: StorageSection|
                #[trigger] final(self).cache().locked(s) == (final(barrier).held()[s.index()]
                    is Some || old(barrier).marked()[s.index()]),
    {
        barrier.fetch(&mut self.sync_cache, signalled)
    }
}

/// The fences in their slots once the draw that reads the section of
/// `slot` was submitted: with `fence` in that slot, if the device gave one.
pub open spec fn fenced(held: Seq<Option<Fence>>, slot: int, fence: Option<Fence>) -> Seq<
    Option<Fence>,
> {
    match fence {
        Some(_) => held.update(slot, fence),
        None => held,
    }
}

/// A crossing of the consumer loses no fence: the fences that were in the
/// barrier, with the one that was put behind the draw, are the fences that
/// are in the barrier afterwards, with those that the crossing hands to the
/// caller: what the two polls found passed, and what the new fence
/// displaced.
pub proof fn lemma_crossing_accounts(
    held: Seq<Option<Fence>>,
    section: StorageSection,
    first: Seq<bool>,
    fence: Option<Fence>,
    second: Seq<bool>,
)
    requires
        held.len() == 3,
    ensures
        ({
            let waiting = kept_after(held, first);
            let drawn = fenced(waiting, section.index(), fence);
            let displaced = if fence is Some {
                waiting[section.index()]
            } else {
                None
            };
            fences_in(held).add(fences_of(fence)) == fences_in(kept_after(drawn, second)).add(
                fences_in(released_by(held, first)),
            ).add(fences_of(displaced)).add(fences_in(released_by(drawn, second)))
        }),
{
    let waiting = kept_after(held, first);
    let drawn = fenced(waiting, section.index(), fence);
    let displaced = if fence is Some {
        waiting[section.index()]
    } else {
        None
    };
    let put = match fence {
        Some(fence) => BarrierStep::Install(section.index(), fence),
        None => BarrierStep::Hold(section.index()),
    };
    lemma_step_accounts(held, BarrierStep::Poll(first));
    lemma_step_accounts(waiting, put);
    lemma_step_accounts(drawn, BarrierStep::Poll(second));
    let left = fences_in(held).add(fences_of(fence));
    let right = fences_in(kept_after(drawn, second)).add(fences_in(released_by(held, first))).add(
        fences_of(displaced),
    ).add(fences_in(released_by(drawn, second)));
    assert forall|other: Fence| left.count(other) == right.count(other) by {
        assert(fences_in(held).add(BarrierStep::Poll(first).taken()).count(other) == fences_in(
            waiting,
        ).add(fences_in(released_by(held, first))).count(other));
        assert(fences_in(waiting).add(put.taken()).count(other) == fences_in(drawn).add(
            put.given(waiting),
        ).count(other));
        assert(fences_in(drawn).add(BarrierStep::Poll(second).taken()).count(other) == fences_in(
            kept_after(drawn, second),
        ).add(fences_in(released_by(drawn, second))).count(other));
        assert(put.taken() == fences_of(fence));
        assert(put.given(waiting) == fences_of(displaced));
    }
    assert(left =~= right);
}

/// What a crossing of the consumer has seen and done.
#[derive(Debug)]
pub struct Crossing {
    /// What the poll before the operation reported of each slot.
    pub first: [bool; 3],
    /// The fences that this poll found passed, for the caller to delete.
    pub released: [Option<Fence>; 3],
    /// The fence that the operation put behind its draw, if the device
    /// gave one.
    pub fence: Option<Fence>,
    /// The fence that the new one displaced from its slot, if there was
    /// one, for the caller to delete.
    pub displaced: Option<Fence>,
    /// What the poll after the operation reported of each slot.
    pub second: [bool; 3],
    /// The fences that this poll found passed, for the caller to delete.
    pub released_after: [Option<Fence>; 3],
}

/// The consumer is the "reader" over the shared storage.
///
/// The consumer works on the current section. It does not check for locks:
/// it is the side whose fences make the locks.
#[derive(Debug)]
pub struct Consumer;

/// The producer is the "writer" over the shared storage.
///
/// The producer works on the section after the current one. When it is
/// done, that section becomes the current one. It works only if the section
/// is not locked; else it leaves everything as it is.
#[derive(Debug)]
pub struct Producer;

/// One of the two ways over a [`Boundary`]: that of the [`Consumer`], or
/// that of the [`Producer`].
#[derive(Debug)]
pub struct Cross<Role, Storage> {
    _role: std::marker::PhantomData<Role>,
    _storage: std::marker::PhantomData<Storage>,
}

impl<Role, Storage> Cross<Role, Storage> {
    /// A way over a boundary, for the role that its type names.
    pub fn new() -> (cross: Self) {
        Self { _role: std::marker::PhantomData, _storage: std::marker::PhantomData }
    }
}

impl<Storage> Cross<Consumer, Storage> {
    /// Let the [`Consumer`] cross the boundary, as a "read" operation.
    ///
    /// The fences of `barrier` are polled with `poll` and the lock word is
    /// refreshed from what they report. Then `op` is run once, on the
    /// section that was current on arrival, whatever is locked. `op`
    /// submits the draw that reads the section and returns the fence that
    /// it put behind the draw. That fence goes into the slot of the
    /// section; where the device gave none, the slot is marked, so that the
    /// section counts as in use all the same. Then the fences are polled
    /// and the lock word is refreshed once more.
    ///
    /// Neither the storage nor the current section changes. Every fence
    /// that has left the barrier is in the result, for the caller to
    /// delete: those that the two polls found passed, and the one that the
    /// new fence displaced.
    pub fn cross<P, F>(
        &self,
        boundary: &mut Boundary<Storage>,
        barrier: &mut SyncBarrier,
        poll: P,
        op: F,
    ) -> (crossing: Crossing) where
        P: Fn(Fence) -> bool,
        F: Fn(StorageSection, &Storage) -> Option<Fence>,

        requires
            forall|fence: Fence| call_requires(poll, (fence,)),
            call_requires(op, (old(boundary).current(), &old(boundary).held())),
        ensures
            final(boundary).held() == old(boundary).held(),
            final(boundary).current() == old(boundary).current(),
            polled(poll, old(barrier).held(), crossing.first@),
            crossing.released@ == released_by(old(barrier).held(), crossing.first@),
            call_ensures(op, (old(boundary).current(), &old(boundary).held()), crossing.fence),
            ({
                let section = old(boundary).current();
                let waiting = kept_after(old(barrier).held(), crossing.first@);
                let drawn = fenced(waiting, section.index(), crossing.fence);
                &&& crossing.displaced == (if crossing.fence is Some {
                    waiting[section.index()]
                } else {
                    None
                })
                &&& polled(poll, drawn, crossing.second@)
                &&& crossing.released_after@ == released_by(drawn, crossing.second@)
                &&& final(barrier).held() == kept_after(drawn, crossing.second@)
                &&& final(barrier).marked() == seq![false, false, false]
                &&& forall|s: StorageSection|
                    #[trigger] final(boundary).cache().locked(s) == (final(barrier).held()[s.index()]
                        is Some || (crossing.fence is None && s == section))
            }),
    {
        let section = boundary.current_section();
        let first = barrier.poll(&poll);
        let released = boundary.sync(barrier, first);

        let fence = op(section, boundary.storage());
        let index = section.as_index();
        let displaced = match fence {
            Some(fence) => barrier.set(index, fence),
            None => {
                barrier.hold(index);
                None
            },
        };

        let second = barrier.poll(&poll);
        let released_after = boundary.sync(barrier, second);
        Crossing { first, released, fence, displaced, second, released_after }
    }
}

impl<Storage> Cross<Producer, Storage> {
    /// Let the [`Producer`] cross the boundary, as a "write" operation.
    ///
    /// If the section after the current one is not locked, `op` is run on
    /// it, and it becomes the current section. If it is locked, nothing
    /// happens at all: `op` is not run, what it would have written is
    /// dropped, and the current section stays.
    ///
    /// `op` need only be callable for the section that is written, and only
    /// where the producer is let through.
    pub fn cross<F>(&self, boundary: &mut Boundary<Storage>, op: F) where
        F: Fn(StorageSection, &mut Storage),

        requires
            old(boundary).admits() ==> forall|storage: &mut Storage|
                *storage == old(boundary).held() ==> call_requires(
                    op,
                    (old(boundary).target(), storage),
                ),
        ensures
            final(boundary).cache() == old(boundary).cache(),
            final(boundary).current() == crossed(
                old(boundary).current(),
                old(boundary).cache().bits(),
            ),
            !old(boundary).admits() ==> *final(boundary) == *old(boundary),
            old(boundary).admits() ==> {
                &&& final(boundary).current() == old(boundary).target()
                &&& final(boundary).current() != old(boundary).current()
                &&& exists|storage: &mut Storage|
                    *storage == old(boundary).held() && *final(storage) == final(boundary).held()
                        && #[trigger] call_ensures(op, (old(boundary).target(), storage), ())
            },
    {
        let section = boundary.current_section().next();
        if !boundary.sync_cache().has_lock(section) {
            op(section, boundary.storage_mut());
            boundary.advance_section();
        }
    }
}

/// Create a boundary around `storage`, and the two ways to cross it: that
/// of the [`Producer`], which writes the storage, and that of the
/// [`Consumer`], which reads it.
pub fn create<Storage>(storage: Storage) -> (parts: (
    Boundary<Storage>,
    Cross<Producer, Storage>,
    Cross<Consumer, Storage>,
))
    ensures
        parts.0.held() == storage,
        parts.0.current() == StorageSection::Spare,
        parts.0.cache().bits() == 0,
        forall|section: StorageSection| !parts.0.cache().locked(section),
{
    let boundary = Boundary::new(storage);
    let producer = Cross::new();
    let consumer = Cross::new();
    (boundary, producer, consumer)
}

} // verus!
