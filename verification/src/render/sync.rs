//! Which sections the device still reads: the fences that tell, and the
//! lock word that is derived from them.

use vstd::multiset::Multiset;
use vstd::prelude::*;

use crate::render::buffer::StorageSection;
use crate::render::buffer::BACK_BYTE;
use crate::render::buffer::FRONT_BYTE;
use crate::render::buffer::SPARE_BYTE;

verus! {

/// A fence that the device signals once it has passed it, by the name that
/// the device gave it.
pub type Fence = usize;

/// The lock word `bits` holds the lock of `section`.
pub open spec fn holds(bits: u8, section: StorageSection) -> bool {
    bits & section.tag() == section.tag()
}

/// The lock word in which exactly the sections with a pending fence are
/// locked.
pub open spec fn lock_word(pending: Seq<bool>) -> u8 {
    (if pending[0] {
        FRONT_BYTE
    } else {
        0u8
    }) | (if pending[1] {
        BACK_BYTE
    } else {
        0u8
    }) | (if pending[2] {
        SPARE_BYTE
    } else {
        0u8
    })
}

/// A tag is one bit: a lock word built with OR holds a lock if and only if
/// one of its operands does.
pub proof fn lemma_holds_or(a: u8, b: u8, section: StorageSection)
    ensures
        holds(a | b, section) <==> holds(a, section) || holds(b, section),
{
    let t = section.tag();
    assert((a | b) & t == t <==> (a & t == t) || (b & t == t)) by (bit_vector)
        requires
            t == 1u8 || t == 8u8 || t == 64u8,
    ;
}

/// Taking the bits `b` out of a lock word releases the locks that `b`
/// holds, and no others.
pub proof fn lemma_holds_and_not(a: u8, b: u8, section: StorageSection)
    ensures
        holds(a & !b, section) <==> holds(a, section) && !holds(b, section),
{
    let t = section.tag();
    assert((a & !b) & t == t <==> (a & t == t) && !(b & t == t)) by (bit_vector)
        requires
            t == 1u8 || t == 8u8 || t == 64u8,
    ;
}

/// The tag of a section holds the lock of that section and of no other, and
/// the empty lock word holds none.
pub proof fn lemma_holds_tag(of: StorageSection, section: StorageSection)
    ensures
        holds(of.tag(), section) <==> of == section,
        !holds(0u8, section),
{
    assert(1u8 & 1u8 == 1u8 && 1u8 & 8u8 == 0u8 && 1u8 & 64u8 == 0u8 && 8u8 & 1u8 == 0u8 && 8u8
        & 8u8 == 8u8 && 8u8 & 64u8 == 0u8 && 64u8 & 1u8 == 0u8 && 64u8 & 8u8 == 0u8 && 64u8 & 64u8
        == 64u8 && 0u8 & 1u8 == 0u8 && 0u8 & 8u8 == 0u8 && 0u8 & 64u8 == 0u8) by (bit_vector);
}

/// The lock word of the pending fences locks exactly the sections whose
/// fence is pending.
pub proof fn lemma_lock_word(pending: Seq<bool>, section: StorageSection)
    requires
        pending.len() == 3,
    ensures
        holds(lock_word(pending), section) <==> pending[section.index()],
{
    let front: u8 = if pending[0] {
        FRONT_BYTE
    } else {
        0u8
    };
    let back: u8 = if pending[1] {
        BACK_BYTE
    } else {
        0u8
    };
    let spare: u8 = if pending[2] {
        SPARE_BYTE
    } else {
        0u8
    };
    lemma_holds_or(front | back, spare, section);
    lemma_holds_or(front, back, section);
    lemma_holds_tag(StorageSection::Front, section);
    lemma_holds_tag(StorageSection::Back, section);
    lemma_holds_tag(StorageSection::Spare, section);
}

/// The lock word: one bit for each section that the device may still read.
///
/// The word is a plain value. Where two sides share it, the side that
/// shares it stores it in one atomic byte, and hands this type a copy of
/// that byte to ask it questions.
#[derive(Clone, Copy, Debug, PartialEq, Eq, Structural)]
pub struct SyncState {
    locks: u8,
}

impl Default for SyncState {
    fn default() -> (state: Self)
        ensures
            state.bits() == 0,
    {
        SyncState { locks: 0 }
    }
}

impl SyncState {
    /// The lock word.
    pub closed spec fn bits(&self) -> u8 {
        self.locks
    }

    /// `section` is locked.
    pub open spec fn locked(&self, section: StorageSection) -> bool {
        holds(self.bits(), section)
    }

    /// A lock word that holds no lock.
    pub fn new() -> (state: Self)
        ensures
            state.bits() == 0,
            forall|section: StorageSection| !state.locked(section),
    {
        proof {
            assert forall|section: StorageSection| !holds(0u8, section) by {
                lemma_holds_tag(section, section);
            }
        }
        Self { locks: 0 }
    }

    /// The lock word `bits`.
    pub fn from_bits(bits: u8) -> (state: Self)
        ensures
            state.bits() == bits,
    {
        Self { locks: bits }
    }

    /// The lock word as one byte.
    pub fn as_bits(&self) -> (bits: u8)
        ensures
            bits == self.bits(),
    {
        self.locks
    }

    /// Performs an `OR` operation on the lock word: the locks that
    /// `section` holds are taken, and none is released.
    pub fn lock_bits(&mut self, section: u8)
        ensures
            final(self).bits() == old(self).bits() | section,
            forall|s: StorageSection|
                #[trigger] final(self).locked(s) == (old(self).locked(s) || holds(section, s)),
    {
        self.locks = self.locks | section;
        proof {
            assert forall|s: StorageSection|
                #[trigger] self.locked(s) == (old(self).locked(s) || holds(section, s)) by {
                lemma_holds_or(old(self).locks, section, s);
            }
        }
    }

    /// Performs an `AND` operation on the lock word with the inverted
    /// `section` bits: the locks that `section` holds are released, and no
    /// other.
    pub fn unlock_bits(&mut self, section: u8)
        ensures
            final(self).bits() == old(self).bits() & !section,
            forall|s: StorageSection|
                #[trigger] final(self).locked(s) == (old(self).locked(s) && !holds(section, s)),
    {
        self.locks = self.locks & !section;
        proof {
            assert forall|s: StorageSection|
                #[trigger] self.locked(s) == (old(self).locked(s) && !holds(section, s)) by {
                lemma_holds_and_not(old(self).locks, section, s);
            }
        }
    }

    /// Lock `section`. The other sections stay as they are.
    pub fn lock(&mut self, section: StorageSection)
        ensures
            final(self).bits() == old(self).bits() | section.tag(),
            forall|s: StorageSection|
                #[trigger] final(self).locked(s) == (old(self).locked(s) || s == section),
    {
        self.lock_bits(section.as_byte());
        proof {
            assert forall|s: StorageSection|
                #[trigger] self.locked(s) == (old(self).locked(s) || s == section) by {
                lemma_holds_tag(section, s);
            }
        }
    }

    /// Unlock `section`. The other sections stay as they are.
    pub fn unlock(&mut self, section: StorageSection)
        ensures
            final(self).bits() == old(self).bits() & !section.tag(),
            forall|s: StorageSection|
                #[trigger] final(self).locked(s) == (old(self).locked(s) && s != section),
    {
        self.unlock_bits(section.as_byte());
        proof {
            assert forall|s: StorageSection|
                #[trigger] self.locked(s) == (old(self).locked(s) && s != section) by {
                lemma_holds_tag(section, s);
            }
        }
    }

    /// Replace the lock word.
    pub fn set(&mut self, bits: u8)
        ensures
            final(self).bits() == bits,
    {
        self.locks = bits;
    }

    /// Whether `section` is locked: whether the device may still read it.
    pub fn has_lock(&self, section: StorageSection) -> (locked: bool)
        ensures
            locked == self.locked(section),
    {
        let bit = section.as_byte();
        self.locks & bit == bit
    }
}

/// The fences that stay in their slots after a poll: those that were not
/// signalled.
pub open spec fn kept_after(held: Seq<Option<Fence>>, signalled: Seq<bool>) -> Seq<Option<Fence>> {
    Seq::new(
        held.len(),
        |i: int|
            if held[i] is Some && !signalled[i] {
                held[i]
            } else {
                None
            },
    )
}

/// The fences that leave their slots after a poll, to be deleted: those
/// that were signalled.
pub open spec fn released_by(held: Seq<Option<Fence>>, signalled: Seq<bool>) -> Seq<Option<Fence>> {
    Seq::new(
        held.len(),
        |i: int|
            if held[i] is Some && signalled[i] {
                held[i]
            } else {
                None
            },
    )
}

/// Which sections count as in use: those whose slot holds a fence, and those
/// that are marked.
pub open spec fn in_use(held: Seq<Option<Fence>>, marked: Seq<bool>) -> Seq<bool> {
    Seq::new(held.len(), |i: int| held[i] is Some || marked[i])
}

/// `signalled` is what polling the fences `held` with `poll` can report: for
/// each fence an answer of `poll`, and for an empty slot that nothing was
/// passed.
pub open spec fn polled<P: Fn(Fence) -> bool>(
    poll: P,
    held: Seq<Option<Fence>>,
    signalled: Seq<bool>,
) -> bool {
    &&& signalled.len() == held.len()
    &&& forall|i: int|
        0 <= i < held.len() ==> match held[i] {
            Some(fence) => call_ensures(poll, (fence,), #[trigger] signalled[i]),
            None => !signalled[i],
        }
}

/// One poll accounts for every fence: a fence that was in a slot is
/// afterwards either still in that slot or among the released ones, never
/// both and never neither.
pub proof fn lemma_poll_accounts(held: Seq<Option<Fence>>, signalled: Seq<bool>, slot: int)
    requires
        0 <= slot < held.len(),
        held[slot] is Some,
    ensures
        kept_after(held, signalled)[slot] == held[slot] <==> released_by(held, signalled)[slot]
            is None,
        kept_after(held, signalled)[slot] is None <==> released_by(held, signalled)[slot]
            == held[slot],
{
}

/// The fences of one slot: one or none.
pub open spec fn fences_of(slot: Option<Fence>) -> Multiset<Fence> {
    match slot {
        Some(fence) => Multiset::singleton(fence),
        None => Multiset::empty(),
    }
}

/// The fences in the three slots `held`, each as often as it occurs.
pub open spec fn fences_in(held: Seq<Option<Fence>>) -> Multiset<Fence> {
    fences_of(held[0]).add(fences_of(held[1])).add(fences_of(held[2]))
}

/// One step in the life of a barrier.
pub enum BarrierStep {
    /// A poll that reported this: see [`SyncBarrier::fetch`].
    Poll(Seq<bool>),
    /// A fence was put into a slot: see [`SyncBarrier::set`].
    Install(int, Fence),
    /// A slot was marked as in use: see [`SyncBarrier::hold`].
    Hold(int),
}

impl BarrierStep {
    /// The step names a slot that there is.
    pub open spec fn fits(self) -> bool {
        match self {
            BarrierStep::Poll(_) => true,
            BarrierStep::Install(slot, _) => 0 <= slot < 3,
            BarrierStep::Hold(slot) => 0 <= slot < 3,
        }
    }

    /// The fences in their slots after the step.
    pub open spec fn kept(self, held: Seq<Option<Fence>>) -> Seq<Option<Fence>> {
        match self {
            BarrierStep::Poll(signalled) => kept_after(held, signalled),
            BarrierStep::Install(slot, fence) => held.update(slot, Some(fence)),
            BarrierStep::Hold(_) => held,
        }
    }

    /// The fences that the step hands to the caller, to be deleted.
    pub open spec fn given(self, held: Seq<Option<Fence>>) -> Multiset<Fence> {
        match self {
            BarrierStep::Poll(signalled) => fences_in(released_by(held, signalled)),
            BarrierStep::Install(slot, _) => fences_of(held[slot]),
            BarrierStep::Hold(_) => Multiset::empty(),
        }
    }

    /// The fences that the step takes from the caller.
    pub open spec fn taken(self) -> Multiset<Fence> {
        match self {
            BarrierStep::Install(_, fence) => Multiset::singleton(fence),
            _ => Multiset::empty(),
        }
    }
}

/// The fences in their slots after the steps `steps`, first to last.
pub open spec fn kept_after_all(held: Seq<Option<Fence>>, steps: Seq<BarrierStep>) -> Seq<
    Option<Fence>,
>
    decreases steps.len(),
{
    if steps.len() == 0 {
        held
    } else {
        steps.last().kept(kept_after_all(held, steps.drop_last()))
    }
}

/// The fences that the steps `steps` hand to the caller.
pub open spec fn given_during(held: Seq<Option<Fence>>, steps: Seq<BarrierStep>) -> Multiset<Fence>
    decreases steps.len(),
{
    if steps.len() == 0 {
        Multiset::empty()
    } else {
        given_during(held, steps.drop_last()).add(
            steps.last().given(kept_after_all(held, steps.drop_last())),
        )
    }
}

/// The fences that the steps `steps` take from the caller.
pub open spec fn taken_during(steps: Seq<BarrierStep>) -> Multiset<Fence>
    decreases steps.len(),
{
    if steps.len() == 0 {
        Multiset::empty()
    } else {
        taken_during(steps.drop_last()).add(steps.last().taken())
    }
}

/// One step accounts for every fence: the fences that were in the slots,
/// with the one that the step takes, are the fences that are in the slots
/// afterwards, with those that the step hands out.
pub proof fn lemma_step_accounts(held: Seq<Option<Fence>>, step: BarrierStep)
    requires
        held.len() == 3,
        step.fits(),
    ensures
        step.kept(held).len() == 3,
        fences_in(held).add(step.taken()) == fences_in(step.kept(held)).add(step.given(held)),
{
    assert(fences_in(held).add(step.taken()) =~= fences_in(step.kept(held)).add(step.given(held)));
}

/// No fence is lost: whatever the steps are, every fence that was in a
/// slot at the start or was put into one since is still in a slot after the
/// last step, from where giving up the barrier hands it out, or was handed
/// out by one of the steps. No fence is handed out twice, and none that was
/// not taken.
pub proof fn lemma_no_fence_lost(held: Seq<Option<Fence>>, steps: Seq<BarrierStep>)
    requires
        held.len() == 3,
        forall|i: int| 0 <= i < steps.len() ==> (#[trigger] steps[i]).fits(),
    ensures
        kept_after_all(held, steps).len() == 3,
        fences_in(held).add(taken_during(steps)) == fences_in(kept_after_all(held, steps)).add(
            given_during(held, steps),
        ),
    decreases steps.len(),
{
    if steps.len() > 0 {
        let before = steps.drop_last();
        let between = kept_after_all(held, before);
        let step = steps.last();
        lemma_no_fence_lost(held, before);
        lemma_step_accounts(between, step);
        assert forall|fence: Fence|
            fences_in(held).add(taken_during(steps)).count(fence) == fences_in(
                kept_after_all(held, steps),
            ).add(given_during(held, steps)).count(fence) by {
            assert(fences_in(held).add(taken_during(before)).count(fence) == fences_in(between).add(
                given_during(held, before),
            ).count(fence));
            assert(fences_in(between).add(step.taken()).count(fence) == fences_in(
                step.kept(between),
            ).add(step.given(between)).count(fence));
        }
    }
    assert(fences_in(held).add(taken_during(steps)) =~= fences_in(
        kept_after_all(held, steps),
    ).add(given_during(held, steps)));
}

/// The fences of the three sections, one slot for each.
///
/// A fence is put into the slot of a section right after the draw that
/// reads the section was submitted. As long as the fence is in its slot the
/// section counts as in use by the device.
///
/// Where the device gave no fence for a draw, the slot is marked instead:
/// the section then counts as in use for the poll that follows, and no
/// longer.
#[derive(Debug)]
pub struct SyncBarrier {
    fences: [Option<Fence>; 3],
    waiting: [bool; 3],
}

impl Default for SyncBarrier {
    fn default() -> (barrier: Self)
        ensures
            barrier.held() == seq![None::<Fence>, None::<Fence>, None::<Fence>],
            barrier.marked() == seq![false, false, false],
    {
        SyncBarrier { fences: [None, None, None], waiting: [false, false, false] }
    }
}

impl SyncBarrier {
    /// The fence in each slot.
    pub closed spec fn held(&self) -> Seq<Option<Fence>> {
        self.fences@
    }

    /// The slots that are marked as in use.
    pub closed spec fn marked(&self) -> Seq<bool> {
        self.waiting@
    }

    /// A barrier has three slots, one for each section.
    pub proof fn lemma_three_slots(&self)
        ensures
            self.held().len() == 3,
            self.marked().len() == 3,
    {
    }

    /// A barrier without fences and without marks.
    pub fn new() -> (barrier: Self)
        ensures
            barrier.held() == seq![None::<Fence>, None::<Fence>, None::<Fence>],
            barrier.marked() == seq![false, false, false],
    {
        Self { fences: [None, None, None], waiting: [false, false, false] }
    }

    /// The fence in the slot `index`, if there is one.
    pub fn fence(&self, index: usize) -> (fence: Option<Fence>)
        requires
            index < 3,
        ensures
            fence == self.held()[index as int],
    {
        self.fences[index]
    }

    /// Ask `poll` of each fence in a slot whether the device has passed it.
    /// `poll` must not wait for the device.
    pub fn poll<P: Fn(Fence) -> bool>(&self, poll: &P) -> (signalled: [bool; 3])
        requires
            forall|fence: Fence| call_requires(*poll, (fence,)),
        ensures
            polled(*poll, self.held(), signalled@),
    {
        let mut signalled: [bool; 3] = [false, false, false];
        let mut i: usize = 0;
        while i < 3
            invariant
                0 <= i <= 3,
                self.held().len() == 3,
                forall|fence: Fence| call_requires(*poll, (fence,)),
                forall|k: int|
                    0 <= k < i ==> match self.held()[k] {
                        Some(fence) => call_ensures(*poll, (fence,), #[trigger] signalled@[k]),
                        None => !signalled@[k],
                    },
                forall|k: int| i <= k < 3 ==> !#[trigger] signalled@[k],
            decreases 3 - i,
        {
            if let Some(fence) = self.fences[i] {
                let passed = poll(fence);
                signalled[i] = passed;
            }
            i += 1;
        }
        signalled
    }

    /// Take in what polling the fences has reported, and store in `to`
    /// which sections are still in use.
    ///
    /// `signalled[i]` says whether the fence in slot `i` was reported as
    /// passed; for an empty slot it is not looked at. A fence that was
    /// passed leaves its slot and is returned, for the caller to delete.
    /// Any other fence stays, and its section is locked in `to`. A fence
    /// that could not be polled counts as not passed.
    ///
    /// The section of a marked slot is locked in `to` as well. The marks
    /// are used up by that: the poll after this one finds none.
    pub fn fetch(&mut self, to: &mut SyncState, signalled: [bool; 3]) -> (released: [Option<
        Fence,
    >; 3])
        ensures
            final(self).held() == kept_after(old(self).held(), signalled@),
            final(self).marked() == seq![false, false, false],
            released@ == released_by(old(self).held(), signalled@),
            final(to).bits() == lock_word(in_use(final(self).held(), old(self).marked())),
            forall|s: StorageSection|
                #[trigger] final(to).locked(s) == (final(self).held()[s.index()] is Some || old(
                    self,
                ).marked()[s.index()]),
    {
        let mut bits = 0u8;
        let mut released: [Option<Fence>; 3] = [None, None, None];
        let ghost mut locked: Seq<bool> = seq![false, false, false];
        proof {
            assert((0u8 | 0u8) | 0u8 == 0u8) by (bit_vector);
        }
        let mut i: usize = 0;
        while i < 3
            invariant
                0 <= i <= 3,
                self.held().len() == 3,
                self.marked().len() == 3,
                locked.len() == 3,
                forall|k: int|
                    0 <= k < i ==> #[trigger] self.held()[k] == kept_after(
                        old(self).held(),
                        signalled@,
                    )[k],
                forall|k: int| i <= k < 3 ==> #[trigger] self.held()[k] == old(self).held()[k],
                forall|k: int| 0 <= k < i ==> !#[trigger] self.marked()[k],
                forall|k: int| i <= k < 3 ==> #[trigger] self.marked()[k] == old(self).marked()[k],
                forall|k: int|
                    0 <= k < i ==> #[trigger] released@[k] == released_by(
                        old(self).held(),
                        signalled@,
                    )[k],
                forall|k: int| i <= k < 3 ==> #[trigger] released@[k] is None,
                forall|k: int|
                    0 <= k < i ==> #[trigger] locked[k] == (self.held()[k] is Some || old(
                        self,
                    ).marked()[k]),
                forall|k: int| i <= k < 3 ==> !#[trigger] locked[k],
                bits == lock_word(locked),
            decreases 3 - i,
        {
            let mut lock = self.waiting[i];
            self.waiting[i] = false;
            if let Some(fence) = self.fences[i] {
                if signalled[i] {
                    self.fences[i] = None;
                    released[i] = Some(fence);
                } else {
                    lock = true;
                }
            }
            if lock {
                let ghost before = locked;
                let tag = if i == 0 {
                    FRONT_BYTE
                } else if i == 1 {
                    BACK_BYTE
                } else {
                    SPARE_BYTE
                };
                proof {
                    locked = locked.update(i as int, true);
                    lemma_lock_word_grows(before, i as int);
                }
                bits = bits | tag;
            }
            i += 1;
        }
        to.set(bits);
        proof {
            assert(self.held() =~= kept_after(old(self).held(), signalled@));
            assert(self.marked() =~= seq![false, false, false]);
            assert(released@ =~= released_by(old(self).held(), signalled@));
            assert(locked =~= in_use(self.held(), old(self).marked()));
            assert forall|s: StorageSection|
                #[trigger] to.locked(s) == (self.held()[s.index()] is Some || old(
                    self,
                ).marked()[s.index()]) by {
                lemma_lock_word(in_use(self.held(), old(self).marked()), s);
            }
        }
        released
    }

    /// Put `fence` into the slot `index`: the device reads that section
    /// until it has passed the fence.
    ///
    /// # Returns
    /// The fence that was in the slot, if there was one, for the caller to
    /// delete: the new fence stands for it.
    pub fn set(&mut self, index: usize, fence: Fence) -> (displaced: Option<Fence>)
        requires
            index < 3,
        ensures
            final(self).held() == old(self).held().update(index as int, Some(fence)),
            final(self).marked() == old(self).marked(),
            displaced == old(self).held()[index as int],
    {
        let displaced = self.fences[index];
        self.fences[index] = Some(fence);
        displaced
    }

    /// Mark the slot `index` as in use though no fence stands for it: the
    /// device gave none for the draw that reads that section. The section
    /// is locked by the poll that follows, and by no later one.
    pub fn hold(&mut self, index: usize)
        requires
            index < 3,
        ensures
            final(self).held() == old(self).held(),
            final(self).marked() == old(self).marked().update(index as int, true),
    {
        self.waiting[index] = true;
    }

    /// Give up all fences: every fence leaves its slot and is returned,
    /// for the caller to delete. The marks stay.
    pub fn drain(&mut self) -> (released: [Option<Fence>; 3])
        ensures
            released@ == old(self).held(),
            final(self).held() == seq![None::<Fence>, None::<Fence>, None::<Fence>],
            final(self).marked() == old(self).marked(),
    {
        let released = self.fences;
        self.fences = [None, None, None];
        released
    }
}

/// Locking one more section in the lock word of `locked` is an OR with the
/// tag of that section.
proof fn lemma_lock_word_grows(locked: Seq<bool>, slot: int)
    requires
        locked.len() == 3,
        0 <= slot < 3,
        !locked[slot],
    ensures
        lock_word(locked.update(slot, true)) == lock_word(locked) | (if slot == 0 {
            FRONT_BYTE
        } else if slot == 1 {
            BACK_BYTE
        } else {
            SPARE_BYTE
        }),
{
    let a: u8 = if locked[0] {
        FRONT_BYTE
    } else {
        0u8
    };
    let b: u8 = if locked[1] {
        BACK_BYTE
    } else {
        0u8
    };
    let c: u8 = if locked[2] {
        SPARE_BYTE
    } else {
        0u8
    };
    assert(((0u8 | b) | c) | 1u8 == (1u8 | b) | c) by (bit_vector);
    assert(((a | 0u8) | c) | 8u8 == (a | 8u8) | c) by (bit_vector);
    assert(((a | b) | 0u8) | 64u8 == (a | b) | 64u8) by (bit_vector);
}

} // verus!
