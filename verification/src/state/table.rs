//! Views over the rows of a table: one to four columns of equal standing,
//! borrowed together and walked in step.

use vstd::prelude::*;

verus! {

/// The smaller of two lengths: how far two rows can be walked in step.
pub open spec fn shortest(a: int, b: int) -> int {
    if a <= b {
        a
    } else {
        b
    }
}

/// The smaller of two lengths.
fn shorter(a: usize, b: usize) -> (n: usize)
    ensures
        n == shortest(a as int, b as int),
{
    if a <= b {
        a
    } else {
        b
    }
}

/// A view of one row.
#[derive(Debug)]
pub struct SoloView<'row, Def, A> {
    pub alpha: &'row [A],
    pub _definition: std::marker::PhantomData<Def>,
}

/// A view of two rows, walked in step.
#[derive(Debug)]
pub struct DualView<'row, Def, A, B> {
    alpha: &'row [A],
    beta: &'row [B],
    _definition: std::marker::PhantomData<Def>,
}

/// A view of three rows, walked in step.
#[derive(Debug)]
pub struct TrioView<'row, Def, A, B, Y> {
    alpha: &'row [A],
    beta: &'row [B],
    gamma: &'row [Y],
    _definition: std::marker::PhantomData<Def>,
}

/// A view of four rows, walked in step.
#[derive(Debug)]
pub struct QuatView<'row, Def, A, B, Y, D> {
    alpha: &'row [A],
    beta: &'row [B],
    gamma: &'row [Y],
    delta: &'row [D],
    _definition: std::marker::PhantomData<Def>,
}

/// A view of one row. The rows can be written through it.
#[derive(Debug)]
pub struct SoloViewMut<'row, Def, A> {
    pub alpha: &'row mut [A],
    pub _definition: std::marker::PhantomData<Def>,
}

/// A view of two rows, walked in step. The rows can be written through it.
#[derive(Debug)]
pub struct DualViewMut<'row, Def, A, B> {
    alpha: &'row mut [A],
    beta: &'row mut [B],
    _definition: std::marker::PhantomData<Def>,
}

/// A view of three rows, walked in step. The rows can be written through it.
#[derive(Debug)]
pub struct TrioViewMut<'row, Def, A, B, Y> {
    alpha: &'row mut [A],
    beta: &'row mut [B],
    gamma: &'row mut [Y],
    _definition: std::marker::PhantomData<Def>,
}

/// A view of four rows, walked in step. The rows can be written through it.
#[derive(Debug)]
pub struct QuatViewMut<'row, Def, A, B, Y, D> {
    alpha: &'row mut [A],
    beta: &'row mut [B],
    gamma: &'row mut [Y],
    delta: &'row mut [D],
    _definition: std::marker::PhantomData<Def>,
}

impl<'row, Def, A> Clone for SoloView<'row, Def, A> {
    fn clone(&self) -> (view: Self)
        ensures
            view == *self,
    {
        SoloView {
            alpha: self.alpha,
            _definition: std::marker::PhantomData,
        }
    }
}

impl<'row, Def, A> Copy for SoloView<'row, Def, A> {

}

impl<'row, Def, A, B> Clone for DualView<'row, Def, A, B> {
    fn clone(&self) -> (view: Self)
        ensures
            view == *self,
    {
        DualView {
            alpha: self.alpha,
            beta: self.beta,
            _definition: std::marker::PhantomData,
        }
    }
}

impl<'row, Def, A, B> Copy for DualView<'row, Def, A, B> {

}

impl<'row, Def, A, B, Y> Clone for TrioView<'row, Def, A, B, Y> {
    fn clone(&self) -> (view: Self)
        ensures
            view == *self,
    {
        TrioView {
            alpha: self.alpha,
            beta: self.beta,
            gamma: self.gamma,
            _definition: std::marker::PhantomData,
        }
    }
}

impl<'row, Def, A, B, Y> Copy for TrioView<'row, Def, A, B, Y> {

}

impl<'row, Def, A, B, Y, D> Clone for QuatView<'row, Def, A, B, Y, D> {
    fn clone(&self) -> (view: Self)
        ensures
            view == *self,
    {
        QuatView {
            alpha: self.alpha,
            beta: self.beta,
            gamma: self.gamma,
            delta: self.delta,
            _definition: std::marker::PhantomData,
        }
    }
}

impl<'row, Def, A, B, Y, D> Copy for QuatView<'row, Def, A, B, Y, D> {

}

impl<'row, Def, A> SoloView<'row, Def, A> {
    /// The row `alpha`.
    pub open spec fn alphas(&self) -> Seq<A> {
        self.alpha@
    }

    /// The row, to be walked from its first element on.
    pub fn iter(&self) -> (row: &'row [A])
        ensures
            row@ == self.alphas(),
    {
        self.alpha
    }

    /// The row `alpha`.
    pub fn alpha(&self) -> (row: &'row [A])
        ensures
            row@ == self.alphas(),
    {
        self.alpha
    }

    /// Add the row of `other` behind the rows of this view.
    pub fn join<B: Sized>(self, other: SoloView<'row, Def, B>) -> (view: DualView<'row, Def, A, B>)
        ensures
            view.alphas() == self.alphas(),
            view.betas() == other.alphas(),
    {
        DualView {
            alpha: self.alpha,
            beta: other.alpha,
            _definition: std::marker::PhantomData,
        }
    }
}

impl<'row, Def, A, B> DualView<'row, Def, A, B> {
    /// The row `alpha`.
    pub closed spec fn alphas(&self) -> Seq<A> {
        self.alpha@
    }

    /// The row `beta`.
    pub closed spec fn betas(&self) -> Seq<B> {
        self.beta@
    }

    /// The rows in step: element `i` of each row together, for every `i`
    /// that is within all of the rows.
    pub fn iter(&self) -> (items: Vec<(&'row A, &'row B)>)
        ensures
            items@.len() == shortest(self.alphas().len() as int, self.betas().len() as int),
            forall|i: int|
                0 <= i < items@.len() ==> *(#[trigger] items@[i]).0 == self.alphas()[i]
                    && *items@[i].1 == self.betas()[i],
    {
        let alpha: &[A] = self.alpha;
        let beta: &[B] = self.beta;
        let n = shorter(alpha.len(), beta.len());
        let mut items: Vec<(&'row A, &'row B)> = Vec::with_capacity(n);
        let mut i: usize = 0;
        while i < n
            invariant
                alpha@ == self.alphas(),
                beta@ == self.betas(),
                n == shortest(self.alphas().len() as int, self.betas().len() as int),
                0 <= i <= n,
                items@.len() == i,
                forall|k: int|
                    0 <= k < i ==> *(#[trigger] items@[k]).0 == self.alphas()[k]
                        && *items@[k].1 == self.betas()[k],
            decreases n - i,
        {
            items.push((&alpha[i], &beta[i]));
            i += 1;
        }
        items
    }

    /// The row `alpha`.
    pub fn alpha(&self) -> (row: &'row [A])
        ensures
            row@ == self.alphas(),
    {
        self.alpha
    }

    /// The row `beta`.
    pub fn beta(&self) -> (row: &'row [B])
        ensures
            row@ == self.betas(),
    {
        self.beta
    }

    /// Add the row of `other` behind the rows of this view.
    pub fn join<Y: Sized>(self, other: SoloView<'row, Def, Y>) -> (view: TrioView<'row, Def, A, B, Y>)
        ensures
            view.alphas() == self.alphas(),
            view.betas() == self.betas(),
            view.gammas() == other.alphas(),
    {
        TrioView {
            alpha: self.alpha,
            beta: self.beta,
            gamma: other.alpha,
            _definition: std::marker::PhantomData,
        }
    }

    /// Drop the first row.
    pub fn pop_left(self) -> (view: SoloView<'row, Def, B>)
        ensures
            view.alphas() == self.betas(),
    {
        SoloView {
            alpha: self.beta,
            _definition: std::marker::PhantomData,
        }
    }

    /// Drop the last row.
    pub fn pop_right(self) -> (view: SoloView<'row, Def, A>)
        ensures
            view.alphas() == self.alphas(),
    {
        SoloView {
            alpha: self.alpha,
            _definition: std::marker::PhantomData,
        }
    }
}

impl<'row, Def, A, B, Y> TrioView<'row, Def, A, B, Y> {
    /// The row `alpha`.
    pub closed spec fn alphas(&self) -> Seq<A> {
        self.alpha@
    }

    /// The row `beta`.
    pub closed spec fn betas(&self) -> Seq<B> {
        self.beta@
    }

    /// The row `gamma`.
    pub closed spec fn gammas(&self) -> Seq<Y> {
        self.gamma@
    }

    /// The rows in step: element `i` of each row together, for every `i`
    /// that is within all of the rows.
    pub fn iter(&self) -> (items: Vec<((&'row A, &'row B), &'row Y)>)
        ensures
            items@.len() == shortest(shortest(self.alphas().len() as int, self.betas().len() as int), self.gammas().len() as int),
            forall|i: int|
                0 <= i < items@.len() ==> *(#[trigger] items@[i]).0.0 == self.alphas()[i]
                    && *items@[i].0.1 == self.betas()[i]
                    && *items@[i].1 == self.gammas()[i],
    {
        let alpha: &[A] = self.alpha;
        let beta: &[B] = self.beta;
        let gamma: &[Y] = self.gamma;
        let n = shorter(shorter(alpha.len(), beta.len()), gamma.len());
        let mut items: Vec<((&'row A, &'row B), &'row Y)> = Vec::with_capacity(n);
        let mut i: usize = 0;
        while i < n
            invariant
                alpha@ == self.alphas(),
                beta@ == self.betas(),
                gamma@ == self.gammas(),
                n == shortest(shortest(self.alphas().len() as int, self.betas().len() as int), self.gammas().len() as int),
                0 <= i <= n,
                items@.len() == i,
                forall|k: int|
                    0 <= k < i ==> *(#[trigger] items@[k]).0.0 == self.alphas()[k]
                        && *items@[k].0.1 == self.betas()[k]
                        && *items@[k].1 == self.gammas()[k],
            decreases n - i,
        {
            items.push(((&alpha[i], &beta[i]), &gamma[i]));
            i += 1;
        }
        items
    }

    /// The row `alpha`.
    pub fn alpha(&self) -> (row: &'row [A])
        ensures
            row@ == self.alphas(),
    {
        self.alpha
    }

    /// The row `beta`.
    pub fn beta(&self) -> (row: &'row [B])
        ensures
            row@ == self.betas(),
    {
        self.beta
    }

    /// The row `gamma`.
    pub fn gamma(&self) -> (row: &'row [Y])
        ensures
            row@ == self.gammas(),
    {
        self.gamma
    }

    /// Add the row of `other` behind the rows of this view.
    pub fn join<D: Sized>(self, other: SoloView<'row, Def, D>) -> (view: QuatView<'row, Def, A, B, Y, D>)
        ensures
            view.alphas() == self.alphas(),
            view.betas() == self.betas(),
            view.gammas() == self.gammas(),
            view.deltas() == other.alphas(),
    {
        QuatView {
            alpha: self.alpha,
            beta: self.beta,
            gamma: self.gamma,
            delta: other.alpha,
            _definition: std::marker::PhantomData,
        }
    }

    /// Drop the first row.
    pub fn pop_left(self) -> (view: DualView<'row, Def, B, Y>)
        ensures
            view.alphas() == self.betas(),
            view.betas() == self.gammas(),
    {
        DualView {
            alpha: self.beta,
            beta: self.gamma,
            _definition: std::marker::PhantomData,
        }
    }

    /// Drop the last row.
    pub fn pop_right(self) -> (view: DualView<'row, Def, A, B>)
        ensures
            view.alphas() == self.alphas(),
            view.betas() == self.betas(),
    {
        DualView {
            alpha: self.alpha,
            beta: self.beta,
            _definition: std::marker::PhantomData,
        }
    }
}

impl<'row, Def, A, B, Y, D> QuatView<'row, Def, A, B, Y, D> {
    /// The row `alpha`.
    pub closed spec fn alphas(&self) -> Seq<A> {
        self.alpha@
    }

    /// The row `beta`.
    pub closed spec fn betas(&self) -> Seq<B> {
        self.beta@
    }

    /// The row `gamma`.
    pub closed spec fn gammas(&self) -> Seq<Y> {
        self.gamma@
    }

    /// The row `delta`.
    pub closed spec fn deltas(&self) -> Seq<D> {
        self.delta@
    }

    /// The rows in step: element `i` of each row together, for every `i`
    /// that is within all of the rows.
    pub fn iter(&self) -> (items: Vec<((&'row A, &'row B), (&'row Y, &'row D))>)
        ensures
            items@.len() == shortest(shortest(self.alphas().len() as int, self.betas().len() as int), shortest(self.gammas().len() as int, self.deltas().len() as int)),
            forall|i: int|
                0 <= i < items@.len() ==> *(#[trigger] items@[i]).0.0 == self.alphas()[i]
                    && *items@[i].0.1 == self.betas()[i]
                    && *items@[i].1.0 == self.gammas()[i]
                    && *items@[i].1.1 == self.deltas()[i],
    {
        let alpha: &[A] = self.alpha;
        let beta: &[B] = self.beta;
        let gamma: &[Y] = self.gamma;
        let delta: &[D] = self.delta;
        let n = shorter(shorter(alpha.len(), beta.len()), shorter(gamma.len(), delta.len()));
        let mut items: Vec<((&'row A, &'row B), (&'row Y, &'row D))> = Vec::with_capacity(n);
        let mut i: usize = 0;
        while i < n
            invariant
                alpha@ == self.alphas(),
                beta@ == self.betas(),
                gamma@ == self.gammas(),
                delta@ == self.deltas(),
                n == shortest(shortest(self.alphas().len() as int, self.betas().len() as int), shortest(self.gammas().len() as int, self.deltas().len() as int)),
                0 <= i <= n,
                items@.len() == i,
                forall|k: int|
                    0 <= k < i ==> *(#[trigger] items@[k]).0.0 == self.alphas()[k]
                        && *items@[k].0.1 == self.betas()[k]
                        && *items@[k].1.0 == self.gammas()[k]
                        && *items@[k].1.1 == self.deltas()[k],
            decreases n - i,
        {
            items.push(((&alpha[i], &beta[i]), (&gamma[i], &delta[i])));
            i += 1;
        }
        items
    }

    /// The row `alpha`.
    pub fn alpha(&self) -> (row: &'row [A])
        ensures
            row@ == self.alphas(),
    {
        self.alpha
    }

    /// The row `beta`.
    pub fn beta(&self) -> (row: &'row [B])
        ensures
            row@ == self.betas(),
    {
        self.beta
    }

    /// The row `gamma`.
    pub fn gamma(&self) -> (row: &'row [Y])
        ensures
            row@ == self.gammas(),
    {
        self.gamma
    }

    /// The row `delta`.
    pub fn delta(&self) -> (row: &'row [D])
        ensures
            row@ == self.deltas(),
    {
        self.delta
    }

    /// Drop the first row.
    pub fn pop_left(self) -> (view: TrioView<'row, Def, B, Y, D>)
        ensures
            view.alphas() == self.betas(),
            view.betas() == self.gammas(),
            view.gammas() == self.deltas(),
    {
        TrioView {
            alpha: self.beta,
            beta: self.gamma,
            gamma: self.delta,
            _definition: std::marker::PhantomData,
        }
    }

    /// Drop the last row.
    pub fn pop_right(self) -> (view: TrioView<'row, Def, A, B, Y>)
        ensures
            view.alphas() == self.alphas(),
            view.betas() == self.betas(),
            view.gammas() == self.gammas(),
    {
        TrioView {
            alpha: self.alpha,
            beta: self.beta,
            gamma: self.gamma,
            _definition: std::marker::PhantomData,
        }
    }
}

impl<'row, Def, A> SoloViewMut<'row, Def, A> {
    /// The borrow of the row `alpha` that the view holds.
    pub open spec fn alpha_borrow(&self) -> &'row mut [A] {
        self.alpha
    }

    /// The row `alpha`.
    pub open spec fn alphas(&self) -> Seq<A> {
        (*self.alpha)@
    }

    /// The row, to be walked from its first element on.
    pub fn iter(&'row self) -> (row: &'row [A])
        ensures
            row@ == self.alphas(),
    {
        self.alpha
    }

    /// The row for writing, to be walked from its first element on. The row
    /// keeps its length.
    pub fn iter_mut(&'row mut self) -> (row: &'row mut [A])
        ensures
            row@ == old(self).alphas(),
            final(self).alphas() == final(row)@,
    {
        self.alpha
    }

    /// The row `alpha`.
    pub fn alpha(&'row self) -> (row: &'row [A])
        ensures
            row@ == self.alphas(),
    {
        self.alpha
    }

    /// The row `alpha`, for writing. The row keeps its length.
    pub fn alpha_mut(&'row mut self) -> (row: &'row mut [A])
        ensures
            row@ == old(self).alphas(),
            final(self).alphas() == final(row)@,
    {
        self.alpha
    }

    /// Add the row of `other` behind the rows of this view.
    pub fn join<B: Sized>(self, other: SoloViewMut<'row, Def, B>) -> (view: DualViewMut<'row, Def, A, B>)
        ensures
            view.alphas() == self.alphas(),
            view.betas() == other.alphas(),
            final(view.alpha_borrow())@ == final(self.alpha_borrow())@,
            final(view.beta_borrow())@ == final(other.alpha_borrow())@,
    {
        DualViewMut {
            alpha: self.alpha,
            beta: other.alpha,
            _definition: std::marker::PhantomData,
        }
    }
}

impl<'row, Def, A, B> DualViewMut<'row, Def, A, B> {
    /// The borrow of the row `alpha` that the view holds.
    pub closed spec fn alpha_borrow(&self) -> &'row mut [A] {
        self.alpha
    }

    /// The borrow of the row `beta` that the view holds.
    pub closed spec fn beta_borrow(&self) -> &'row mut [B] {
        self.beta
    }

    /// The row `alpha`.
    pub closed spec fn alphas(&self) -> Seq<A> {
        (*self.alpha)@
    }

    /// The row `beta`.
    pub closed spec fn betas(&self) -> Seq<B> {
        (*self.beta)@
    }

    /// The rows in step: element `i` of each row together, for every `i`
    /// that is within all of the rows.
    pub fn iter(&'row self) -> (items: Vec<(&'row A, &'row B)>)
        ensures
            items@.len() == shortest(self.alphas().len() as int, self.betas().len() as int),
            forall|i: int|
                0 <= i < items@.len() ==> *(#[trigger] items@[i]).0 == self.alphas()[i]
                    && *items@[i].1 == self.betas()[i],
    {
        let alpha: &[A] = self.alpha;
        let beta: &[B] = self.beta;
        let n = shorter(alpha.len(), beta.len());
        let mut items: Vec<(&'row A, &'row B)> = Vec::with_capacity(n);
        let mut i: usize = 0;
        while i < n
            invariant
                alpha@ == self.alphas(),
                beta@ == self.betas(),
                n == shortest(self.alphas().len() as int, self.betas().len() as int),
                0 <= i <= n,
                items@.len() == i,
                forall|k: int|
                    0 <= k < i ==> *(#[trigger] items@[k]).0 == self.alphas()[k]
                        && *items@[k].1 == self.betas()[k],
            decreases n - i,
        {
            items.push((&alpha[i], &beta[i]));
            i += 1;
        }
        items
    }

    /// The rows for writing, each cut to the length that all of them have,
    /// so that they can be walked in step. What lies behind that length
    /// stays as it is.
    pub fn iter_mut(&'row mut self) -> (rows: (&'row mut [A], &'row mut [B]))
        ensures
            rows.0@ == old(self).alphas().subrange(0, shortest(old(self).alphas().len() as int, old(self).betas().len() as int)),
            rows.1@ == old(self).betas().subrange(0, shortest(old(self).alphas().len() as int, old(self).betas().len() as int)),
            final(self).alphas() == final(rows.0)@ + old(self).alphas().subrange(
                shortest(old(self).alphas().len() as int, old(self).betas().len() as int),
                old(self).alphas().len() as int,
            ),
            final(self).betas() == final(rows.1)@ + old(self).betas().subrange(
                shortest(old(self).alphas().len() as int, old(self).betas().len() as int),
                old(self).betas().len() as int,
            ),
    {
        let n = shorter(self.alpha.len(), self.beta.len());
        let (alpha, _) = self.alpha.split_at_mut(n);
        let (beta, _) = self.beta.split_at_mut(n);
        (alpha, beta)
    }

    /// The row `alpha`.
    pub fn alpha(&'row self) -> (row: &'row [A])
        ensures
            row@ == self.alphas(),
    {
        self.alpha
    }

    /// The row `beta`.
    pub fn beta(&'row self) -> (row: &'row [B])
        ensures
            row@ == self.betas(),
    {
        self.beta
    }

    /// The row `alpha`, for writing. The row keeps its length.
    pub fn alpha_mut(&'row mut self) -> (row: &'row mut [A])
        ensures
            row@ == old(self).alphas(),
            final(self).alphas() == final(row)@,
            final(self).betas() == old(self).betas(),
    {
        self.alpha
    }

    /// The row `beta`, for writing. The row keeps its length.
    pub fn beta_mut(&'row mut self) -> (row: &'row mut [B])
        ensures
            row@ == old(self).betas(),
            final(self).betas() == final(row)@,
            final(self).alphas() == old(self).alphas(),
    {
        self.beta
    }

    /// Add the row of `other` behind the rows of this view.
    pub fn join<Y: Sized>(self, other: SoloViewMut<'row, Def, Y>) -> (view: TrioViewMut<'row, Def, A, B, Y>)
        ensures
            view.alphas() == self.alphas(),
            view.betas() == self.betas(),
            view.gammas() == other.alphas(),
            final(view.alpha_borrow())@ == final(self.alpha_borrow())@,
            final(view.beta_borrow())@ == final(self.beta_borrow())@,
            final(view.gamma_borrow())@ == final(other.alpha_borrow())@,
    {
        TrioViewMut {
            alpha: self.alpha,
            beta: self.beta,
            gamma: other.alpha,
            _definition: std::marker::PhantomData,
        }
    }

    /// Drop the first row.
    pub fn pop_left(self) -> (view: SoloViewMut<'row, Def, B>)
        ensures
            view.alphas() == self.betas(),
            final(view.alpha_borrow())@ == final(self.beta_borrow())@,
    {
        SoloViewMut {
            alpha: self.beta,
            _definition: std::marker::PhantomData,
        }
    }

    /// Drop the last row.
    pub fn pop_right(self) -> (view: SoloViewMut<'row, Def, A>)
        ensures
            view.alphas() == self.alphas(),
            final(view.alpha_borrow())@ == final(self.alpha_borrow())@,
    {
        SoloViewMut {
            alpha: self.alpha,
            _definition: std::marker::PhantomData,
        }
    }
}

impl<'row, Def, A, B, Y> TrioViewMut<'row, Def, A, B, Y> {
    /// The borrow of the row `alpha` that the view holds.
    pub closed spec fn alpha_borrow(&self) -> &'row mut [A] {
        self.alpha
    }

    /// The borrow of the row `beta` that the view holds.
    pub closed spec fn beta_borrow(&self) -> &'row mut [B] {
        self.beta
    }

    /// The borrow of the row `gamma` that the view holds.
    pub closed spec fn gamma_borrow(&self) -> &'row mut [Y] {
        self.gamma
    }

    /// The row `alpha`.
    pub closed spec fn alphas(&self) -> Seq<A> {
        (*self.alpha)@
    }

    /// The row `beta`.
    pub closed spec fn betas(&self) -> Seq<B> {
        (*self.beta)@
    }

    /// The row `gamma`.
    pub closed spec fn gammas(&self) -> Seq<Y> {
        (*self.gamma)@
    }

    /// The rows in step: element `i` of each row together, for every `i`
    /// that is within all of the rows.
    pub fn iter(&'row self) -> (items: Vec<((&'row A, &'row B), &'row Y)>)
        ensures
            items@.len() == shortest(shortest(self.alphas().len() as int, self.betas().len() as int), self.gammas().len() as int),
            forall|i: int|
                0 <= i < items@.len() ==> *(#[trigger] items@[i]).0.0 == self.alphas()[i]
                    && *items@[i].0.1 == self.betas()[i]
                    && *items@[i].1 == self.gammas()[i],
    {
        let alpha: &[A] = self.alpha;
        let beta: &[B] = self.beta;
        let gamma: &[Y] = self.gamma;
        let n = shorter(shorter(alpha.len(), beta.len()), gamma.len());
        let mut items: Vec<((&'row A, &'row B), &'row Y)> = Vec::with_capacity(n);
        let mut i: usize = 0;
        while i < n
            invariant
                alpha@ == self.alphas(),
                beta@ == self.betas(),
                gamma@ == self.gammas(),
                n == shortest(shortest(self.alphas().len() as int, self.betas().len() as int), self.gammas().len() as int),
                0 <= i <= n,
                items@.len() == i,
                forall|k: int|
                    0 <= k < i ==> *(#[trigger] items@[k]).0.0 == self.alphas()[k]
                        && *items@[k].0.1 == self.betas()[k]
                        && *items@[k].1 == self.gammas()[k],
            decreases n - i,
        {
            items.push(((&alpha[i], &beta[i]), &gamma[i]));
            i += 1;
        }
        items
    }

    /// The rows for writing, each cut to the length that all of them have,
    /// so that they can be walked in step. What lies behind that length
    /// stays as it is.
    pub fn iter_mut(&'row mut self) -> (rows: ((&'row mut [A], &'row mut [B]), &'row mut [Y]))
        ensures
            rows.0.0@ == old(self).alphas().subrange(0, shortest(shortest(old(self).alphas().len() as int, old(self).betas().len() as int), old(self).gammas().len() as int)),
            rows.0.1@ == old(self).betas().subrange(0, shortest(shortest(old(self).alphas().len() as int, old(self).betas().len() as int), old(self).gammas().len() as int)),
            rows.1@ == old(self).gammas().subrange(0, shortest(shortest(old(self).alphas().len() as int, old(self).betas().len() as int), old(self).gammas().len() as int)),
            final(self).alphas() == final(rows.0.0)@ + old(self).alphas().subrange(
                shortest(shortest(old(self).alphas().len() as int, old(self).betas().len() as int), old(self).gammas().len() as int),
                old(self).alphas().len() as int,
            ),
            final(self).betas() == final(rows.0.1)@ + old(self).betas().subrange(
                shortest(shortest(old(self).alphas().len() as int, old(self).betas().len() as int), old(self).gammas().len() as int),
                old(self).betas().len() as int,
            ),
            final(self).gammas() == final(rows.1)@ + old(self).gammas().subrange(
                shortest(shortest(old(self).alphas().len() as int, old(self).betas().len() as int), old(self).gammas().len() as int),
                old(self).gammas().len() as int,
            ),
    {
        let n = shorter(shorter(self.alpha.len(), self.beta.len()), self.gamma.len());
        let (alpha, _) = self.alpha.split_at_mut(n);
        let (beta, _) = self.beta.split_at_mut(n);
        let (gamma, _) = self.gamma.split_at_mut(n);
        ((alpha, beta), gamma)
    }

    /// The row `alpha`.
    pub fn alpha(&'row self) -> (row: &'row [A])
        ensures
            row@ == self.alphas(),
    {
        self.alpha
    }

    /// The row `beta`.
    pub fn beta(&'row self) -> (row: &'row [B])
        ensures
            row@ == self.betas(),
    {
        self.beta
    }

    /// The row `gamma`.
    pub fn gamma(&'row self) -> (row: &'row [Y])
        ensures
            row@ == self.gammas(),
    {
        self.gamma
    }

    /// The row `alpha`, for writing. The row keeps its length.
    pub fn alpha_mut(&'row mut self) -> (row: &'row mut [A])
        ensures
            row@ == old(self).alphas(),
            final(self).alphas() == final(row)@,
            final(self).betas() == old(self).betas(),
            final(self).gammas() == old(self).gammas(),
    {
        self.alpha
    }

    /// The row `beta`, for writing. The row keeps its length.
    pub fn beta_mut(&'row mut self) -> (row: &'row mut [B])
        ensures
            row@ == old(self).betas(),
            final(self).betas() == final(row)@,
            final(self).alphas() == old(self).alphas(),
            final(self).gammas() == old(self).gammas(),
    {
        self.beta
    }

    /// The row `gamma`, for writing. The row keeps its length.
    pub fn gamma_mut(&'row mut self) -> (row: &'row mut [Y])
        ensures
            row@ == old(self).gammas(),
            final(self).gammas() == final(row)@,
            final(self).alphas() == old(self).alphas(),
            final(self).betas() == old(self).betas(),
    {
        self.gamma
    }

    /// Add the row of `other` behind the rows of this view.
    pub fn join<D: Sized>(self, other: SoloViewMut<'row, Def, D>) -> (view: QuatViewMut<'row, Def, A, B, Y, D>)
        ensures
            view.alphas() == self.alphas(),
            view.betas() == self.betas(),
            view.gammas() == self.gammas(),
            view.deltas() == other.alphas(),
            final(view.alpha_borrow())@ == final(self.alpha_borrow())@,
            final(view.beta_borrow())@ == final(self.beta_borrow())@,
            final(view.gamma_borrow())@ == final(self.gamma_borrow())@,
            final(view.delta_borrow())@ == final(other.alpha_borrow())@,
    {
        QuatViewMut {
            alpha: self.alpha,
            beta: self.beta,
            gamma: self.gamma,
            delta: other.alpha,
            _definition: std::marker::PhantomData,
        }
    }

    /// Drop the first row.
    pub fn pop_left(self) -> (view: DualViewMut<'row, Def, B, Y>)
        ensures
            view.alphas() == self.betas(),
            view.betas() == self.gammas(),
            final(view.alpha_borrow())@ == final(self.beta_borrow())@,
            final(view.beta_borrow())@ == final(self.gamma_borrow())@,
    {
        DualViewMut {
            alpha: self.beta,
            beta: self.gamma,
            _definition: std::marker::PhantomData,
        }
    }

    /// Drop the last row.
    pub fn pop_right(self) -> (view: DualViewMut<'row, Def, A, B>)
        ensures
            view.alphas() == self.alphas(),
            view.betas() == self.betas(),
            final(view.alpha_borrow())@ == final(self.alpha_borrow())@,
            final(view.beta_borrow())@ == final(self.beta_borrow())@,
    {
        DualViewMut {
            alpha: self.alpha,
            beta: self.beta,
            _definition: std::marker::PhantomData,
        }
    }
}

impl<'row, Def, A, B, Y, D> QuatViewMut<'row, Def, A, B, Y, D> {
    /// The borrow of the row `alpha` that the view holds.
    pub closed spec fn alpha_borrow(&self) -> &'row mut [A] {
        self.alpha
    }

    /// The borrow of the row `beta` that the view holds.
    pub closed spec fn beta_borrow(&self) -> &'row mut [B] {
        self.beta
    }

    /// The borrow of the row `gamma` that the view holds.
    pub closed spec fn gamma_borrow(&self) -> &'row mut [Y] {
        self.gamma
    }

    /// The borrow of the row `delta` that the view holds.
    pub closed spec fn delta_borrow(&self) -> &'row mut [D] {
        self.delta
    }

    /// The row `alpha`.
    pub closed spec fn alphas(&self) -> Seq<A> {
        (*self.alpha)@
    }

    /// The row `beta`.
    pub closed spec fn betas(&self) -> Seq<B> {
        (*self.beta)@
    }

    /// The row `gamma`.
    pub closed spec fn gammas(&self) -> Seq<Y> {
        (*self.gamma)@
    }

    /// The row `delta`.
    pub closed spec fn deltas(&self) -> Seq<D> {
        (*self.delta)@
    }

    /// The rows in step: element `i` of each row together, for every `i`
    /// that is within all of the rows.
    pub fn iter(&'row self) -> (items: Vec<((&'row A, &'row B), (&'row Y, &'row D))>)
        ensures
            items@.len() == shortest(shortest(self.alphas().len() as int, self.betas().len() as int), shortest(self.gammas().len() as int, self.deltas().len() as int)),
            forall|i: int|
                0 <= i < items@.len() ==> *(#[trigger] items@[i]).0.0 == self.alphas()[i]
                    && *items@[i].0.1 == self.betas()[i]
                    && *items@[i].1.0 == self.gammas()[i]
                    && *items@[i].1.1 == self.deltas()[i],
    {
        let alpha: &[A] = self.alpha;
        let beta: &[B] = self.beta;
        let gamma: &[Y] = self.gamma;
        let delta: &[D] = self.delta;
        let n = shorter(shorter(alpha.len(), beta.len()), shorter(gamma.len(), delta.len()));
        let mut items: Vec<((&'row A, &'row B), (&'row Y, &'row D))> = Vec::with_capacity(n);
        let mut i: usize = 0;
        while i < n
            invariant
                alpha@ == self.alphas(),
                beta@ == self.betas(),
                gamma@ == self.gammas(),
                delta@ == self.deltas(),
                n == shortest(shortest(self.alphas().len() as int, self.betas().len() as int), shortest(self.gammas().len() as int, self.deltas().len() as int)),
                0 <= i <= n,
                items@.len() == i,
                forall|k: int|
                    0 <= k < i ==> *(#[trigger] items@[k]).0.0 == self.alphas()[k]
                        && *items@[k].0.1 == self.betas()[k]
                        && *items@[k].1.0 == self.gammas()[k]
                        && *items@[k].1.1 == self.deltas()[k],
            decreases n - i,
        {
            items.push(((&alpha[i], &beta[i]), (&gamma[i], &delta[i])));
            i += 1;
        }
        items
    }

    /// The rows for writing, each cut to the length that all of them have,
    /// so that they can be walked in step. What lies behind that length
    /// stays as it is.
    pub fn iter_mut(&'row mut self) -> (rows: ((&'row mut [A], &'row mut [B]), (&'row mut [Y], &'row mut [D])))
        ensures
            rows.0.0@ == old(self).alphas().subrange(0, shortest(shortest(old(self).alphas().len() as int, old(self).betas().len() as int), shortest(old(self).gammas().len() as int, old(self).deltas().len() as int))),
            rows.0.1@ == old(self).betas().subrange(0, shortest(shortest(old(self).alphas().len() as int, old(self).betas().len() as int), shortest(old(self).gammas().len() as int, old(self).deltas().len() as int))),
            rows.1.0@ == old(self).gammas().subrange(0, shortest(shortest(old(self).alphas().len() as int, old(self).betas().len() as int), shortest(old(self).gammas().len() as int, old(self).deltas().len() as int))),
            rows.1.1@ == old(self).deltas().subrange(0, shortest(shortest(old(self).alphas().len() as int, old(self).betas().len() as int), shortest(old(self).gammas().len() as int, old(self).deltas().len() as int))),
            final(self).alphas() == final(rows.0.0)@ + old(self).alphas().subrange(
                shortest(shortest(old(self).alphas().len() as int, old(self).betas().len() as int), shortest(old(self).gammas().len() as int, old(self).deltas().len() as int)),
                old(self).alphas().len() as int,
            ),
            final(self).betas() == final(rows.0.1)@ + old(self).betas().subrange(
                shortest(shortest(old(self).alphas().len() as int, old(self).betas().len() as int), shortest(old(self).gammas().len() as int, old(self).deltas().len() as int)),
                old(self).betas().len() as int,
            ),
            final(self).gammas() == final(rows.1.0)@ + old(self).gammas().subrange(
                shortest(shortest(old(self).alphas().len() as int, old(self).betas().len() as int), shortest(old(self).gammas().len() as int, old(self).deltas().len() as int)),
                old(self).gammas().len() as int,
            ),
            final(self).deltas() == final(rows.1.1)@ + old(self).deltas().subrange(
                shortest(shortest(old(self).alphas().len() as int, old(self).betas().len() as int), shortest(old(self).gammas().len() as int, old(self).deltas().len() as int)),
                old(self).deltas().len() as int,
            ),
    {
        let n = shorter(shorter(self.alpha.len(), self.beta.len()), shorter(self.gamma.len(), self.delta.len()));
        let (alpha, _) = self.alpha.split_at_mut(n);
        let (beta, _) = self.beta.split_at_mut(n);
        let (gamma, _) = self.gamma.split_at_mut(n);
        let (delta, _) = self.delta.split_at_mut(n);
        ((alpha, beta), (gamma, delta))
    }

    /// The row `alpha`.
    pub fn alpha(&'row self) -> (row: &'row [A])
        ensures
            row@ == self.alphas(),
    {
        self.alpha
    }

    /// The row `beta`.
    pub fn beta(&'row self) -> (row: &'row [B])
        ensures
            row@ == self.betas(),
    {
        self.beta
    }

    /// The row `gamma`.
    pub fn gamma(&'row self) -> (row: &'row [Y])
        ensures
            row@ == self.gammas(),
    {
        self.gamma
    }

    /// The row `delta`.
    pub fn delta(&'row self) -> (row: &'row [D])
        ensures
            row@ == self.deltas(),
    {
        self.delta
    }

    /// The row `alpha`, for writing. The row keeps its length.
    pub fn alpha_mut(&'row mut self) -> (row: &'row mut [A])
        ensures
            row@ == old(self).alphas(),
            final(self).alphas() == final(row)@,
            final(self).betas() == old(self).betas(),
            final(self).gammas() == old(self).gammas(),
            final(self).deltas() == old(self).deltas(),
    {
        self.alpha
    }

    /// The row `beta`, for writing. The row keeps its length.
    pub fn beta_mut(&'row mut self) -> (row: &'row mut [B])
        ensures
            row@ == old(self).betas(),
            final(self).betas() == final(row)@,
            final(self).alphas() == old(self).alphas(),
            final(self).gammas() == old(self).gammas(),
            final(self).deltas() == old(self).deltas(),
    {
        self.beta
    }

    /// The row `gamma`, for writing. The row keeps its length.
    pub fn gamma_mut(&'row mut self) -> (row: &'row mut [Y])
        ensures
            row@ == old(self).gammas(),
            final(self).gammas() == final(row)@,
            final(self).alphas() == old(self).alphas(),
            final(self).betas() == old(self).betas(),
            final(self).deltas() == old(self).deltas(),
    {
        self.gamma
    }

    /// The row `delta`, for writing. The row keeps its length.
    pub fn delta_mut(&'row mut self) -> (row: &'row mut [D])
        ensures
            row@ == old(self).deltas(),
            final(self).deltas() == final(row)@,
            final(self).alphas() == old(self).alphas(),
            final(self).betas() == old(self).betas(),
            final(self).gammas() == old(self).gammas(),
    {
        self.delta
    }

    /// Drop the first row.
    pub fn pop_left(self) -> (view: TrioViewMut<'row, Def, B, Y, D>)
        ensures
            view.alphas() == self.betas(),
            view.betas() == self.gammas(),
            view.gammas() == self.deltas(),
            final(view.alpha_borrow())@ == final(self.beta_borrow())@,
            final(view.beta_borrow())@ == final(self.gamma_borrow())@,
            final(view.gamma_borrow())@ == final(self.delta_borrow())@,
    {
        TrioViewMut {
            alpha: self.beta,
            beta: self.gamma,
            gamma: self.delta,
            _definition: std::marker::PhantomData,
        }
    }

    /// Drop the last row.
    pub fn pop_right(self) -> (view: TrioViewMut<'row, Def, A, B, Y>)
        ensures
            view.alphas() == self.alphas(),
            view.betas() == self.betas(),
            view.gammas() == self.gammas(),
            final(view.alpha_borrow())@ == final(self.alpha_borrow())@,
            final(view.beta_borrow())@ == final(self.beta_borrow())@,
            final(view.gamma_borrow())@ == final(self.gamma_borrow())@,
    {
        TrioViewMut {
            alpha: self.alpha,
            beta: self.beta,
            gamma: self.gamma,
            _definition: std::marker::PhantomData,
        }
    }
}

/// A column whose values are the rows of a table: one value of each row
/// type, under one handle.
pub trait Table<Def: Sized + Default>: crate::state::data::Column<Def> {

}

} // verus!
