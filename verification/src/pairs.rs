//! Adjacent pairs of the items of a sequence.

use vstd::prelude::*;
use vstd::std_specs::iter::IteratorSpec;

verus! {

/// The consecutive overlapping pairs of `items`: one pair for each index that
/// has a successor, in order.
pub open spec fn adjacent_pairs<T>(items: Seq<T>) -> Seq<(T, T)> {
    Seq::new(
        if items.len() == 0 {
            0nat
        } else {
            (items.len() - 1) as nat
        },
        |i: int| (items[i], items[i + 1]),
    )
}

/// The items a pair sequence still has to look at: the item held back from the
/// previous step followed by what the source will yield. Once nothing is held
/// back the sequence is over, whatever the source still holds.
pub open spec fn pending_items<T>(left: Option<T>, rest: Seq<T>) -> Seq<T> {
    match left {
        Some(first) => seq![first] + rest,
        None => Seq::empty(),
    }
}

/// The adjacent pairs of what an iterator yields, given one at a time.
///
/// The first item of a pair is held back in `left` until the source yields
/// the second. The pairs still to come are the adjacent pairs of
/// [`pending_items`] of `left` and of what the source will yield.
pub struct PairsIter<I: Iterator> {
    /// The item that will be the first of the next pair, or `None` once the
    /// pairs are over.
    pub left: Option<I::Item>,
    /// Where the items come from.
    pub source: I,
}

impl<I: Iterator> PairsIter<I> where I::Item: Copy {
    /// Gives the next pair, or `None` once fewer than two items are pending;
    /// after that it gives `None` for good.
    ///
    /// What is stated of the pairs holds of a source that keeps to the laws
    /// of iterators: it yields finitely many items and then `None` for good.
    pub fn next(&mut self) -> (ret: Option<(I::Item, I::Item)>)
        ensures
            final(self).source.obeys_prophetic_iter_laws() == old(
                self,
            ).source.obeys_prophetic_iter_laws(),
            old(self).source.obeys_prophetic_iter_laws() ==> (old(self).source.decrease() is Some
                <==> final(self).source.decrease() is Some),
            old(self).source.obeys_prophetic_iter_laws() && ret is Some && old(
                self,
            ).source.decrease() is Some ==> decreases_to!(
                old(self).source.decrease()->0 => final(self).source.decrease()->0
            ),
            old(self).source.obeys_prophetic_iter_laws() ==> ({
                let before = adjacent_pairs(
                    pending_items(old(self).left, old(self).source.remaining()),
                );
                let after = adjacent_pairs(
                    pending_items(final(self).left, final(self).source.remaining()),
                );
                if before.len() > 0 {
                    ret == Some(before[0]) && after == before.drop_first()
                } else {
                    ret is None && after.len() == 0
                }
            }),
    {
        let left = match self.left.take() {
            Some(left) => left,
            None => {
                return None;
            },
        };
        let right = match self.source.next() {
            Some(right) => right,
            None => {
                return None;
            },
        };
        self.left = Some(right);
        Some((left, right))
    }
}

/// Iterators whose items can be given in adjacent pairs.
pub trait Pairs: Iterator + Sized {
    /// Turns the iterator into one over the adjacent pairs of its items. It
    /// takes the first item at once and each further item only when a pair is
    /// asked for.
    fn pairs(self) -> (r: PairsIter<Self>)
        ensures
            r.source.obeys_prophetic_iter_laws() == self.obeys_prophetic_iter_laws(),
            self.obeys_prophetic_iter_laws() ==> (self.decrease() is Some
                <==> r.source.decrease() is Some),
            self.obeys_prophetic_iter_laws() ==> pending_items(r.left, r.source.remaining())
                == self.remaining(),
    ;
}

impl<I: Iterator> Pairs for I {
    fn pairs(self) -> (r: PairsIter<Self>) {
        let mut source = self;
        let left = source.next();
        PairsIter { left, source }
    }
}

/// A sequence of `n` items has `n - 1` adjacent pairs, none where it is empty,
/// and the pair at each position holds the item there and the one after it.
pub proof fn law_adjacent_pairs<T>(items: Seq<T>)
    ensures
        adjacent_pairs(items).len() == if items.len() == 0 {
            0
        } else {
            items.len() - 1
        },
        forall|i: int|
            0 <= i < adjacent_pairs(items).len() ==> #[trigger] adjacent_pairs(items)[i] == (
                items[i],
                items[i + 1],
            ),
{
}

/// No item and one item give no pair; three items give the first with the
/// second and the second with the third.
pub proof fn law_adjacent_pairs_of_few<T>(a: T, b: T, c: T)
    ensures
        adjacent_pairs(Seq::<T>::empty()) == Seq::<(T, T)>::empty(),
        adjacent_pairs(seq![a]) == Seq::<(T, T)>::empty(),
        adjacent_pairs(seq![a, b, c]) == seq![(a, b), (b, c)],
{
    assert(adjacent_pairs(Seq::<T>::empty()) =~= Seq::<(T, T)>::empty());
    assert(adjacent_pairs(seq![a]) =~= Seq::<(T, T)>::empty());
    assert(adjacent_pairs(seq![a, b, c]) =~= seq![(a, b), (b, c)]);
}

} // verus!
