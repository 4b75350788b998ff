use vstd::prelude::*;

verus! {

/// The sequence that `v` becomes when its elements `start..end` are
/// replaced by `replacement`.
pub open spec fn spliced_seq<T>(v: Seq<T>, start: int, end: int, replacement: Seq<T>) -> Seq<T> {
    v.subrange(0, start) + replacement + v.subrange(end, v.len() as int)
}

/// The length after a splice: the removed range goes, the replacement comes.
pub proof fn lemma_spliced_len<T>(v: Seq<T>, start: int, end: int, replacement: Seq<T>)
    requires
        0 <= start <= end <= v.len(),
    ensures
        spliced_seq(v, start, end, replacement).len() == v.len() - (end - start)
            + replacement.len(),
{
}

/// A splice keeps the elements before the range, puts the replacement where
/// the range began, and keeps the elements after the range behind it, in
/// their order.
pub proof fn lemma_spliced_parts<T>(v: Seq<T>, start: int, end: int, replacement: Seq<T>)
    requires
        0 <= start <= end <= v.len(),
    ensures
        ({
            let w = spliced_seq(v, start, end, replacement);
            let mid = start + replacement.len();
            &&& w.subrange(0, start) == v.subrange(0, start)
            &&& w.subrange(start, mid) == replacement
            &&& w.subrange(mid, w.len() as int) == v.subrange(end, v.len() as int)
        }),
{
    let w = spliced_seq(v, start, end, replacement);
    let mid = start + replacement.len();
    assert(w.subrange(0, start) =~= v.subrange(0, start));
    assert(w.subrange(start, mid) =~= replacement);
    assert(w.subrange(mid, w.len() as int) =~= v.subrange(end, v.len() as int));
}

/// Splicing an empty range with nothing leaves the vector as it was.
pub proof fn lemma_splice_nop<T>(v: Seq<T>, at: int)
    requires
        0 <= at <= v.len(),
    ensures
        spliced_seq(v, at, at, Seq::<T>::empty()) == v,
{
    assert(spliced_seq(v, at, at, Seq::<T>::empty()) =~= v);
}

/// Replacing a range by the very elements it holds leaves the vector as it
/// was.
pub proof fn lemma_splice_same<T>(v: Seq<T>, start: int, end: int)
    requires
        0 <= start <= end <= v.len(),
    ensures
        spliced_seq(v, start, end, v.subrange(start, end)) == v,
{
    assert(spliced_seq(v, start, end, v.subrange(start, end)) =~= v);
}

/// A splice is undone by a second splice that puts the removed elements back
/// in place of the replacement.
pub proof fn lemma_splice_undo<T>(v: Seq<T>, start: int, end: int, replacement: Seq<T>)
    requires
        0 <= start <= end <= v.len(),
    ensures
        ({
            let w = spliced_seq(v, start, end, replacement);
            let mid = start + replacement.len();
            &&& w.subrange(start, mid) == replacement
            &&& spliced_seq(w, start, mid, v.subrange(start, end)) == v
        }),
{
    let w = spliced_seq(v, start, end, replacement);
    let mid = start + replacement.len();
    lemma_spliced_parts(v, start, end, replacement);
    assert(spliced_seq(w, start, mid, v.subrange(start, end)) =~= v);
}

/// Taking from the front and the back of what is left of a removed range:
/// after `k` elements were taken from the front and `m` from the back, what
/// is left is `r[k..len - m]`; the next front element is `r[k]`, the next back
/// element is `r[len - m - 1]`, and taking either leaves the range shortened
/// by one more at that end.
pub proof fn lemma_take_from_ends<T>(r: Seq<T>, k: int, m: int)
    requires
        0 <= k,
        0 <= m,
        k + m < r.len(),
    ensures
        ({
            let rest = r.subrange(k, r.len() - m);
            &&& rest[0] == r[k]
            &&& rest.drop_first() == r.subrange(k + 1, r.len() - m)
            &&& rest.last() == r[r.len() - m - 1]
            &&& rest.drop_last() == r.subrange(k, r.len() - (m + 1))
        }),
{
    let rest = r.subrange(k, r.len() - m);
    assert(rest.drop_first() =~= r.subrange(k + 1, r.len() - m));
    assert(rest.drop_last() =~= r.subrange(k, r.len() - (m + 1)));
}

/// A splicing iterator over a vector.
///
/// It is created by [`Splice::new`], which replaces the range `start..end` of
/// a vector by the replacement elements and keeps the removed elements. These
/// can be taken from either end with [`Splice::next`] and
/// [`Splice::next_back`]; the ones not taken are dropped with the `Splice`.
/// The vector is left spliced whether or not the removed elements are taken.
#[derive(Debug)]
pub struct Splice<T> {
    /// The removed elements that have not been handed out yet.
    drained: Vec<T>,
}

impl<T> View for Splice<T> {
    type V = Seq<T>;

    /// The removed elements that have not been handed out yet, front first.
    open spec fn view(&self) -> Seq<T> {
        self.remaining()
    }
}

impl<T> Splice<T> {
    /// The removed elements that have not been handed out yet, front first.
    pub closed spec fn remaining(&self) -> Seq<T> {
        self.drained@
    }

    /// Replaces the elements `start..end` of `vec` by `replace_with` and
    /// returns a `Splice` over the removed elements.
    pub fn new(vec: &mut Vec<T>, start: usize, end: usize, replace_with: Vec<T>) -> (s: Self)
        requires
            start <= end <= old(vec).len(),
        ensures
            s.remaining() == old(vec)@.subrange(start as int, end as int),
            final(vec)@ == spliced_seq(old(vec)@, start as int, end as int, replace_with@),
    {
        let mut tail = vec.split_off(end);
        let drained = vec.split_off(start);
        let mut replace_with = replace_with;
        vec.append(&mut replace_with);
        vec.append(&mut tail);
        Splice { drained }
    }

    /// Takes the next removed element from the front.
    pub fn next(&mut self) -> (item: Option<T>)
        ensures
            old(self).remaining().len() == 0 ==> item is None && final(self).remaining()
                == old(self).remaining(),
            old(self).remaining().len() > 0 ==> item == Some(old(self).remaining()[0])
                && final(self).remaining() == old(self).remaining().drop_first(),
    {
        if self.drained.len() == 0 {
            None
        } else {
            Some(self.drained.remove(0))
        }
    }

    /// Takes the next removed element from the back.
    pub fn next_back(&mut self) -> (item: Option<T>)
        ensures
            old(self).remaining().len() == 0 ==> item is None && final(self).remaining()
                == old(self).remaining(),
            old(self).remaining().len() > 0 ==> item == Some(old(self).remaining().last())
                && final(self).remaining() == old(self).remaining().drop_last(),
    {
        self.drained.pop()
    }

    /// Bounds on the number of removed elements still to be handed out; the
    /// number is known exactly.
    pub fn size_hint(&self) -> (hint: (usize, Option<usize>))
        ensures
            hint.0 == self.remaining().len(),
            hint.1 == Some(hint.0),
    {
        let n = self.drained.len();
        (n, Some(n))
    }

    /// The number of removed elements still to be handed out.
    pub fn len(&self) -> (n: usize)
        ensures
            n == self.remaining().len(),
    {
        self.drained.len()
    }

    /// The removed elements that have not been handed out yet.
    pub fn drained_slice(&self) -> (items: &[T])
        ensures
            items@ == self.remaining(),
    {
        self.drained.as_slice()
    }
}

} // verus!
