//! The mathematical model of a column, and the laws that hold of it.

use vstd::prelude::*;

verus! {

/// What a column is, as plain sequences.
///
/// * `map[h]` is the dense index that handle `h` points to, `0` when `h`
///   points to nothing.
/// * `dense[i]` is the value in dense slot `i`; slot `0` holds the degenerate
///   element.
/// * `owners[i]` is the handle that points to dense slot `i`.
/// * `free` lists the handles that can be handed out again.
#[verifier::ext_equal]
pub struct SlotModel<T> {
    pub map: Seq<int>,
    pub dense: Seq<T>,
    pub owners: Seq<int>,
    pub free: Seq<int>,
}

/// One step in the life of a column.
pub enum SlotOp<T> {
    Put(T),
    Free(int),
}

impl<T> SlotModel<T> {
    /// The column that holds nothing but the degenerate element `nil`.
    pub open spec fn empty(nil: T) -> Self {
        SlotModel { map: seq![0int], dense: seq![nil], owners: seq![0int], free: Seq::empty() }
    }

    /// Handle `h` is within the slot map and is not the nil handle.
    pub open spec fn is_handle(self, h: int) -> bool {
        1 <= h < self.map.len()
    }

    /// Handle `h` points to a value.
    pub open spec fn is_live(self, h: int) -> bool {
        self.is_handle(h) && self.map[h] != 0
    }

    /// The value that handle `h` points to.
    pub open spec fn value(self, h: int) -> T {
        self.dense[self.map[h]]
    }

    /// The live handles, each with its value.
    pub open spec fn live(self) -> Map<int, T> {
        Map::new(|h: int| self.is_live(h), |h: int| self.value(h))
    }

    /// The invariant of a column.
    pub open spec fn wf(self) -> bool {
        &&& self.map.len() >= 1
        &&& self.map[0] == 0
        &&& self.dense.len() == self.owners.len()
        &&& self.dense.len() >= 1
        &&& self.owners[0] == 0
        &&& self.map.len() == self.dense.len() + self.free.len()
        &&& forall|h: int| 0 <= h < self.map.len() ==> 0 <= #[trigger] self.map[h] < self.dense.len()
        &&& forall|i: int|
            1 <= i < self.dense.len() ==> self.is_handle(#[trigger] self.owners[i])
                && self.map[self.owners[i]] == i
        &&& forall|h: int| #[trigger] self.is_live(h) ==> self.owners[self.map[h]] == h
        &&& forall|k: int|
            0 <= k < self.free.len() ==> self.is_handle(#[trigger] self.free[k])
                && self.map[self.free[k]] == 0
        &&& forall|j: int, k: int|
            0 <= j < k < self.free.len() ==> #[trigger] self.free[j] != #[trigger] self.free[k]
        &&& forall|h: int|
            self.is_handle(h) && !(#[trigger] self.is_live(h)) ==> self.free.contains(h)
    }

    /// The handle that the next `put` hands out: the one freed last, or a
    /// new one at the end of the slot map.
    pub open spec fn next_handle(self) -> int {
        if self.free.len() > 0 {
            self.free.last()
        } else {
            self.map.len() as int
        }
    }

    /// The column after `value` was put into it.
    pub open spec fn put(self, value: T) -> Self {
        let handle = self.next_handle();
        let slot = self.dense.len() as int;
        SlotModel {
            map: if self.free.len() > 0 {
                self.map.update(handle, slot)
            } else {
                self.map.push(slot)
            },
            dense: self.dense.push(value),
            owners: self.owners.push(handle),
            free: if self.free.len() > 0 {
                self.free.drop_last()
            } else {
                self.free
            },
        }
    }

    /// The column after handle `h` was freed.
    ///
    /// The last dense slot moves into the slot that `h` pointed to, and the
    /// handle that owns the moved value is pointed there. Where `h` itself
    /// points to the last slot nothing moves.
    pub open spec fn release(self, h: int) -> Self {
        let slot = self.map[h];
        let last = self.dense.len() - 1;
        let moved = self.owners[last];
        if slot == 0 {
            self
        } else {
            SlotModel {
                map: if slot == last {
                    self.map.update(h, 0)
                } else {
                    self.map.update(h, 0).update(moved, slot)
                },
                dense: self.dense.update(slot, self.dense[last]).drop_last(),
                owners: self.owners.update(slot, moved).drop_last(),
                free: self.free.push(h),
            }
        }
    }

    /// The column after one step.
    pub open spec fn step(self, op: SlotOp<T>) -> Self {
        match op {
            SlotOp::Put(value) => self.put(value),
            SlotOp::Free(h) => self.release(h),
        }
    }

    /// The column after the steps `ops`, first to last.
    pub open spec fn run(self, ops: Seq<SlotOp<T>>) -> Self
        decreases ops.len(),
    {
        if ops.len() == 0 {
            self
        } else {
            self.run(ops.drop_last()).step(ops.last())
        }
    }

    /// Every `Free` among `ops` names a handle of the column as it is at
    /// that step.
    pub open spec fn admits(self, ops: Seq<SlotOp<T>>) -> bool
        decreases ops.len(),
    {
        if ops.len() == 0 {
            true
        } else {
            &&& self.admits(ops.drop_last())
            &&& match ops.last() {
                SlotOp::Put(_) => true,
                SlotOp::Free(h) => self.run(ops.drop_last()).is_handle(h),
            }
        }
    }

    /// No step of `ops` frees handle `h`.
    pub open spec fn spares(ops: Seq<SlotOp<T>>, h: int) -> bool {
        forall|k: int| 0 <= k < ops.len() ==> #[trigger] ops[k] != SlotOp::<T>::Free(h)
    }
}

impl<T> SlotModel<T> {
    /// The empty column is well formed and has no live handle.
    pub proof fn lemma_empty(nil: T)
        ensures
            Self::empty(nil).wf(),
            Self::empty(nil).live() == Map::<int, T>::empty(),
    {
        let m = Self::empty(nil);
        assert(m.live() =~= Map::<int, T>::empty());
    }

    /// Round trip between handles and dense slots: a live handle owns the
    /// slot it points to, and every dense slot but the first is pointed to
    /// by its owner.
    pub proof fn lemma_round_trip(self)
        requires
            self.wf(),
        ensures
            forall|h: int| #[trigger] self.is_live(h) ==> self.owners[self.map[h]] == h,
            forall|i: int|
                1 <= i < self.dense.len() ==> self.map[#[trigger] self.owners[i]] == i,
            forall|i: int| 1 <= i < self.dense.len() ==> self.is_live(#[trigger] self.owners[i]),
    {
    }

    /// The free list holds exactly the handles that point to nothing.
    pub proof fn lemma_free_list_exact(self)
        requires
            self.wf(),
        ensures
            self.free.no_duplicates(),
            self.free.to_set() == Set::new(|h: int| self.is_handle(h) && self.map[h] == 0),
    {
        assert(self.free.to_set() =~= Set::new(|h: int| self.is_handle(h) && self.map[h] == 0))
            by {
            assert forall|h: int| self.free.to_set().contains(h) implies self.is_handle(h)
                && self.map[h] == 0 by {
                let k = choose|k: int| 0 <= k < self.free.len() && self.free[k] == h;
                assert(self.is_handle(self.free[k]));
            }
            assert forall|h: int| self.is_handle(h) && self.map[h] == 0 implies self.free.to_set().contains(
                h,
            ) by {
                assert(!self.is_live(h));
            }
        }
    }

    /// The handle that `put` hands out is a handle that points to nothing,
    /// or the first one past the slot map. It is never the nil handle.
    pub proof fn lemma_next_handle(self)
        requires
            self.wf(),
        ensures
            1 <= self.next_handle() <= self.map.len(),
            !self.is_live(self.next_handle()),
            self.free.len() == 0 <==> self.next_handle() == self.map.len(),
    {
        if self.free.len() > 0 {
            let k = self.free.len() - 1;
            assert(self.is_handle(self.free[k]));
        }
    }

    /// `put` keeps the column well formed.
    pub proof fn lemma_put_wf(self, value: T)
        requires
            self.wf(),
        ensures
            self.put(value).wf(),
    {
        let n = self.put(value);
        let handle = self.next_handle();
        let slot = self.dense.len() as int;
        self.lemma_next_handle();
        assert(n.map[handle] == slot);
        assert forall|h: int| 0 <= h < n.map.len() implies 0 <= #[trigger] n.map[h]
            < n.dense.len() by {
            if h != handle {
                assert(n.map[h] == self.map[h]);
            }
        }
        assert forall|i: int| 1 <= i < n.dense.len() implies n.is_handle(#[trigger] n.owners[i])
            && n.map[n.owners[i]] == i by {
            if i < slot {
                assert(n.owners[i] == self.owners[i]);
                assert(self.is_handle(self.owners[i]));
                assert(self.map[self.owners[i]] == i);
                assert(self.is_live(self.owners[i]));
            }
        }
        assert forall|h: int| #[trigger] n.is_live(h) implies n.owners[n.map[h]] == h by {
            if h != handle {
                assert(self.is_live(h));
            }
        }
        assert forall|k: int| 0 <= k < n.free.len() implies n.is_handle(#[trigger] n.free[k])
            && n.map[n.free[k]] == 0 by {
            assert(n.free[k] == self.free[k]);
            assert(self.is_handle(self.free[k]));
            assert(self.free[k] != self.free[self.free.len() - 1]);
        }
        assert forall|j: int, k: int| 0 <= j < k < n.free.len() implies #[trigger] n.free[j]
            != #[trigger] n.free[k] by {
            assert(n.free[j] == self.free[j]);
            assert(n.free[k] == self.free[k]);
        }
        assert forall|h: int| n.is_handle(h) && !(#[trigger] n.is_live(h)) implies n.free.contains(
            h,
        ) by {
            assert(h != handle);
            assert(self.is_handle(h) && !self.is_live(h));
            assert(self.free.contains(h));
            let k = choose|k: int| 0 <= k < self.free.len() && self.free[k] == h;
            assert(k < self.free.len() - 1);
            assert(n.free[k] == h);
        }
    }

    /// `put` adds one live handle, the one it hands out, and leaves every
    /// other handle with its value.
    pub proof fn lemma_put_live(self, value: T)
        requires
            self.wf(),
        ensures
            !self.live().dom().contains(self.next_handle()),
            self.put(value).live() == self.live().insert(self.next_handle(), value),
    {
        let n = self.put(value);
        let handle = self.next_handle();
        self.lemma_next_handle();
        assert(n.live() =~= self.live().insert(handle, value)) by {
            assert forall|h: int| n.live().dom().contains(h) <==> self.live().insert(
                handle,
                value,
            ).dom().contains(h) by {
                if h != handle {
                    assert(n.is_live(h) <==> self.is_live(h));
                } else {
                    assert(n.is_live(h));
                }
            }
            assert forall|h: int| n.live().dom().contains(h) implies n.live()[h]
                == self.live().insert(handle, value)[h] by {
                if h != handle {
                    assert(self.is_live(h));
                    assert(n.map[h] == self.map[h]);
                }
            }
        }
    }

    /// Freeing a handle, live or not, keeps the column well formed. This
    /// holds too where the handle points to the last dense slot.
    pub proof fn lemma_release_wf(self, h: int)
        requires
            self.wf(),
            self.is_handle(h),
        ensures
            self.release(h).wf(),
            self.release(h).map[h] == 0,
    {
        let n = self.release(h);
        let slot = self.map[h];
        let last = self.dense.len() - 1;
        let moved = self.owners[last];
        if slot != 0 {
            assert(self.is_live(h));
            assert(self.owners[slot] == h);
            assert(last >= 1);
            assert(self.is_handle(moved) && self.map[moved] == last);
            assert(self.is_live(moved));
            assert(slot == last <==> moved == h);
            assert forall|x: int| 0 <= x < n.map.len() implies 0 <= #[trigger] n.map[x]
                < n.dense.len() by {
                if x != h && x != moved {
                    assert(n.map[x] == self.map[x]);
                    if self.map[x] == last {
                        assert(self.is_live(x));
                    }
                }
            }
            assert forall|i: int| 1 <= i < n.dense.len() implies n.is_handle(
                #[trigger] n.owners[i],
            ) && n.map[n.owners[i]] == i by {
                if i != slot {
                    assert(n.owners[i] == self.owners[i]);
                    assert(self.is_handle(self.owners[i]));
                    assert(self.map[self.owners[i]] == i);
                }
            }
            assert forall|x: int| #[trigger] n.is_live(x) implies n.owners[n.map[x]] == x by {
                if x != moved {
                    assert(x != h);
                    assert(self.is_live(x));
                }
            }
            assert forall|k: int| 0 <= k < n.free.len() implies n.is_handle(
                #[trigger] n.free[k],
            ) && n.map[n.free[k]] == 0 by {
                if k < self.free.len() {
                    assert(n.free[k] == self.free[k]);
                    assert(self.is_handle(self.free[k]));
                }
            }
            assert forall|j: int, k: int| 0 <= j < k < n.free.len() implies #[trigger] n.free[j]
                != #[trigger] n.free[k] by {
                assert(n.free[j] == self.free[j]);
                assert(self.is_handle(self.free[j]));
                if k < self.free.len() {
                    assert(n.free[k] == self.free[k]);
                }
            }
            assert forall|x: int| n.is_handle(x) && !(#[trigger] n.is_live(x)) implies n.free.contains(
                x,
            ) by {
                if x == h {
                    assert(n.free[n.free.len() - 1] == h);
                } else {
                    assert(x != moved);
                    assert(!self.is_live(x));
                    assert(self.free.contains(x));
                    let k = choose|k: int| 0 <= k < self.free.len() && self.free[k] == x;
                    assert(n.free[k] == x);
                }
            }
        }
    }

    /// Freeing a handle removes it from the live handles and leaves every
    /// other handle with its value.
    pub proof fn lemma_release_live(self, h: int)
        requires
            self.wf(),
            self.is_handle(h),
        ensures
            self.release(h).live() == self.live().remove(h),
    {
        let n = self.release(h);
        let slot = self.map[h];
        let last = self.dense.len() - 1;
        let moved = self.owners[last];
        if slot == 0 {
            assert(!self.is_live(h));
            assert(n.live() =~= self.live().remove(h));
        } else {
            assert(self.is_live(h));
            assert(self.is_handle(moved) && self.map[moved] == last);
            assert(self.is_live(moved));
            assert(slot == last <==> moved == h);
            assert(n.live() =~= self.live().remove(h)) by {
                assert forall|x: int| n.live().dom().contains(x) <==> self.live().remove(
                    h,
                ).dom().contains(x) by {
                    if x != h && x != moved {
                        assert(n.is_live(x) <==> self.is_live(x));
                    }
                }
                assert forall|x: int| n.live().dom().contains(x) implies n.live()[x]
                    == self.live().remove(h)[x] by {
                    if x != moved {
                        assert(self.is_live(x));
                        assert(self.map[x] != slot);
                        assert(self.map[x] != last);
                    }
                }
            }
        }
    }

    /// Any admitted run of steps keeps the column well formed.
    pub proof fn lemma_run_wf(self, ops: Seq<SlotOp<T>>)
        requires
            self.wf(),
            self.admits(ops),
        ensures
            self.run(ops).wf(),
        decreases ops.len(),
    {
        if ops.len() > 0 {
            self.lemma_run_wf(ops.drop_last());
            let before = self.run(ops.drop_last());
            match ops.last() {
                SlotOp::Put(value) => before.lemma_put_wf(value),
                SlotOp::Free(h) => before.lemma_release_wf(h),
            }
        }
    }

    /// Handle stability: a live handle that no step frees is live after any
    /// admitted run of steps, and still points to the same value.
    pub proof fn lemma_handle_stable(self, ops: Seq<SlotOp<T>>, h: int)
        requires
            self.wf(),
            self.admits(ops),
            self.is_live(h),
            Self::spares(ops, h),
        ensures
            self.run(ops).is_live(h),
            self.run(ops).value(h) == self.value(h),
        decreases ops.len(),
    {
        if ops.len() > 0 {
            let front = ops.drop_last();
            assert(Self::spares(front, h)) by {
                assert forall|k: int| 0 <= k < front.len() implies #[trigger] front[k]
                    != SlotOp::<T>::Free(h) by {
                    assert(front[k] == ops[k]);
                }
            }
            self.lemma_handle_stable(front, h);
            self.lemma_run_wf(front);
            let before = self.run(front);
            assert(before.live().dom().contains(h));
            assert(before.live()[h] == before.value(h));
            match ops.last() {
                SlotOp::Put(value) => {
                    before.lemma_put_live(value);
                    let after = before.put(value);
                    assert(after.live().dom().contains(h));
                    assert(after.live()[h] == before.live()[h]);
                },
                SlotOp::Free(x) => {
                    assert(ops[ops.len() - 1] != SlotOp::<T>::Free(h));
                    assert(x != h);
                    before.lemma_release_live(x);
                    let after = before.release(x);
                    assert(after.live().dom().contains(h));
                    assert(after.live()[h] == before.live()[h]);
                },
            }
        }
    }
}

} // verus!
