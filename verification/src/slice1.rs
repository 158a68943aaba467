//! A non-empty view of a borrowed sequence.
//!
//! [`Slice1`] is a read-only view of a borrowed sequence together with the
//! proof that the sequence holds at least one element. Wrapping and
//! unwrapping are free: the wrapper holds nothing but the borrow itself.
//! Every accessor is total — first and last element, head/tail split, a
//! provably-positive length — and the derived constructions (chunking,
//! repetition, element iteration) re-establish non-emptiness arithmetically
//! rather than by re-scanning the result.

use crate::FromMaybeEmpty;
use crate::MaybeEmpty;
use crate::iter1::Iterator1;
use crate::safety::NonZeroExt;
use crate::safety::NonZeroLen;
use crate::vec1::Vec1;
use vstd::prelude::*;

verus! {

/// A borrowed view of a sequence that is proven to hold at least one
/// element.
#[derive(Clone, Copy)]
pub struct Slice1<'a, T> {
    items: &'a [T],
}

impl<'a, T> View for Slice1<'a, T> {
    type V = Seq<T>;

    closed spec fn view(&self) -> Seq<T> {
        self.items@
    }
}

impl<'a, T> Slice1<'a, T> {
    /// The invariant carried by every wrapper this module hands out: the
    /// viewed sequence holds at least one element.
    pub open spec fn wf(&self) -> bool {
        self@.len() >= 1
    }

    /// Wraps `items` if it is non-empty; otherwise returns the same borrow,
    /// unchanged, as the error.
    pub fn try_from_slice(items: &'a [T]) -> (r: Result<Slice1<'a, T>, &'a [T]>)
        ensures
            items@.len() >= 1 ==> (r matches Ok(w) && w@ == items@ && w.wf()),
            items@.len() == 0 ==> (r matches Err(e) && e@ == items@),
    {
        FromMaybeEmpty::try_from_maybe_empty(items)
    }

    /// Wraps an exclusively borrowed `items` — frozen to a read-only view
    /// for the wrapper's lifetime — if it is non-empty; otherwise returns
    /// the same exclusive borrow, unchanged, as the error.
    pub fn try_from_mut_slice<'m>(items: &'m mut [T]) -> (r: Result<
        Slice1<'m, T>,
        &'m mut [T],
    >)
        ensures
            old(items)@.len() >= 1 ==> (r matches Ok(w) && w@ == old(items)@ && w.wf()),
            old(items)@.len() == 0 ==> (r matches Err(e) && e@ == old(items)@),
    {
        match items.cardinality() {
            Some(_) => Ok(Slice1 { items }),
            None => Err(items),
        }
    }

    /// Wraps `items` on the strength of a non-emptiness proof supplied by
    /// the caller.
    pub fn from_slice_unchecked(items: &'a [T]) -> (r: Slice1<'a, T>)
        requires
            items@.len() >= 1,
        ensures
            r@ == items@,
            r.wf(),
    {
        FromMaybeEmpty::from_maybe_empty_unchecked(items)
    }

    /// The first element; total, there is no empty case.
    pub fn first(&self) -> (r: &'a T)
        requires
            self.wf(),
        ensures
            *r == self@[0],
    {
        vstd::slice::slice_index_get(self.items, 0)
    }

    /// The last element; total, there is no empty case.
    pub fn last(&self) -> (r: &'a T)
        requires
            self.wf(),
        ensures
            *r == self@[self@.len() - 1],
    {
        let i = self.items.len() - 1;
        vstd::slice::slice_index_get(self.items, i)
    }

    /// Splits off the first element — totally, with no empty case — and
    /// returns it with the possibly-empty tail. The head prepended to the
    /// tail is the original view, and the tail is exactly one element
    /// shorter.
    pub fn split_first(&self) -> (r: (&'a T, &'a [T]))
        requires
            self.wf(),
        ensures
            *r.0 == self@[0],
            r.1@ == self@.skip(1),
            r.1@.len() == self@.len() - 1,
            seq![*r.0] + r.1@ == self@,
    {
        let head = vstd::slice::slice_index_get(self.items, 0);
        let tail = vstd::slice::slice_subrange(self.items, 1, self.items.len());
        proof {
            assert(tail@ =~= self@.skip(1));
            assert(seq![*head] + tail@ =~= self@);
        }
        (head, tail)
    }

    /// Chunks of `n` elements, in order; the last chunk holds the
    /// remainder. The iteration over the chunks is non-empty by
    /// construction-time arithmetic — a non-empty view chunked by a positive
    /// size yields at least one chunk — and every chunk is itself a proven
    /// non-empty view.
    pub fn chunks(&self, n: usize) -> (r: Iterator1<Slice1<'a, T>>)
        requires
            self.wf(),
            n >= 1,
        ensures
            r@.len() == chunks_of(self@, n as nat).len(),
            r@.len() == (self@.len() + n - 1) / (n as int),
            forall|i: int|
                0 <= i < r@.len() ==> (#[trigger] r@[i])@ == chunks_of(self@, n as nat)[i],
            forall|i: int| 0 <= i < r@.len() ==> (#[trigger] r@[i]).wf(),
            r.wf(),
    {
        proof {
            lemma_chunks_of(self@, n as nat);
        }
        let ghost total = chunks_of(self@, n as nat);
        let len = self.items.len();
        let mut out: Vec<Slice1<'a, T>> = Vec::new();
        let mut i: usize = 0;
        proof {
            assert(self@.skip(0) =~= self@);
        }
        while i < len
            invariant
                n >= 1,
                i <= len,
                len == self@.len(),
                out@.len() + chunks_of(self@.skip(i as int), n as nat).len() == total.len(),
                forall|q: int|
                    0 <= q < out@.len() ==> (#[trigger] out@[q])@ == total[q] && out@[q].wf(),
                forall|q: int|
                    0 <= q < chunks_of(self@.skip(i as int), n as nat).len() ==> #[trigger] chunks_of(
                        self@.skip(i as int),
                        n as nat,
                    )[q] == total[out@.len() + q],
            decreases len - i,
        {
            let j = if len - i <= n {
                len
            } else {
                i + n
            };
            let chunk = Slice1 { items: vstd::slice::slice_subrange(self.items, i, j) };
            let ghost prev_out = out@;
            let ghost rem = self@.skip(i as int);
            let ghost rem_next = self@.skip(j as int);
            proof {
                if len - i <= n {
                    assert(chunk@ =~= rem);
                    assert(rem_next =~= Seq::<T>::empty());
                    assert(chunks_of(rem, n as nat) =~= seq![chunk@] + chunks_of(
                        rem_next,
                        n as nat,
                    ));
                } else {
                    assert(chunk@ =~= rem.take(n as int));
                    assert(rem.skip(n as int) =~= rem_next);
                    assert(chunks_of(rem, n as nat) =~= seq![chunk@] + chunks_of(
                        rem_next,
                        n as nat,
                    ));
                }
                assert(chunk@.len() >= 1);
            }
            out.push(chunk);
            proof {
                assert forall|q: int| 0 <= q < out@.len() implies (#[trigger] out@[q])@
                    == total[q] && out@[q].wf() by {
                    if q < prev_out.len() {
                        assert(out@[q] == prev_out[q]);
                    } else {
                        assert(out@[q] == chunk);
                        assert(chunks_of(rem, n as nat)[0] == chunk@);
                        assert(chunk@ == total[prev_out.len() as int]);
                    }
                }
                assert forall|q: int|
                    0 <= q < chunks_of(rem_next, n as nat).len() implies #[trigger] chunks_of(
                    rem_next,
                    n as nat,
                )[q] == total[out@.len() + q] by {
                    assert(chunks_of(rem, n as nat)[q + 1] == chunks_of(rem_next, n as nat)[q]);
                    assert(chunks_of(rem, n as nat)[q + 1] == total[prev_out.len() + q + 1]);
                }
            }
            i = j;
        }
        proof {
            assert(self@.skip(len as int) =~= Seq::<T>::empty());
        }
        Iterator1::from_iter_unchecked(out)
    }

    /// Chunks of `n` elements taken from the end, in order from the end; the
    /// last chunk holds the front remainder. As with [`Slice1::chunks`], the
    /// iteration is non-empty by construction-time arithmetic and every
    /// chunk is a proven non-empty view.
    pub fn rchunks(&self, n: usize) -> (r: Iterator1<Slice1<'a, T>>)
        requires
            self.wf(),
            n >= 1,
        ensures
            r@.len() == rchunks_of(self@, n as nat).len(),
            r@.len() == (self@.len() + n - 1) / (n as int),
            forall|i: int|
                0 <= i < r@.len() ==> (#[trigger] r@[i])@ == rchunks_of(self@, n as nat)[i],
            forall|i: int| 0 <= i < r@.len() ==> (#[trigger] r@[i]).wf(),
            r.wf(),
    {
        proof {
            lemma_rchunks_of(self@, n as nat);
        }
        let ghost total = rchunks_of(self@, n as nat);
        let len = self.items.len();
        let mut out: Vec<Slice1<'a, T>> = Vec::new();
        let mut j: usize = len;
        proof {
            assert(self@.take(len as int) =~= self@);
        }
        while j > 0
            invariant
                n >= 1,
                j <= len,
                len == self@.len(),
                out@.len() + rchunks_of(self@.take(j as int), n as nat).len() == total.len(),
                forall|q: int|
                    0 <= q < out@.len() ==> (#[trigger] out@[q])@ == total[q] && out@[q].wf(),
                forall|q: int|
                    0 <= q < rchunks_of(self@.take(j as int), n as nat).len() ==> #[trigger] rchunks_of(
                        self@.take(j as int),
                        n as nat,
                    )[q] == total[out@.len() + q],
            decreases j,
        {
            let i = if j <= n {
                0
            } else {
                j - n
            };
            let chunk = Slice1 { items: vstd::slice::slice_subrange(self.items, i, j) };
            let ghost prev_out = out@;
            let ghost pre = self@.take(j as int);
            let ghost pre_next = self@.take(i as int);
            proof {
                if j <= n {
                    assert(chunk@ =~= pre);
                    assert(pre_next =~= Seq::<T>::empty());
                    assert(rchunks_of(pre, n as nat) =~= seq![chunk@] + rchunks_of(
                        pre_next,
                        n as nat,
                    ));
                } else {
                    assert(chunk@ =~= pre.skip(j - n));
                    assert(pre.take(j - n) =~= pre_next);
                    assert(rchunks_of(pre, n as nat) =~= seq![chunk@] + rchunks_of(
                        pre_next,
                        n as nat,
                    ));
                }
                assert(chunk@.len() >= 1);
            }
            out.push(chunk);
            proof {
                assert forall|q: int| 0 <= q < out@.len() implies (#[trigger] out@[q])@
                    == total[q] && out@[q].wf() by {
                    if q < prev_out.len() {
                        assert(out@[q] == prev_out[q]);
                    } else {
                        assert(out@[q] == chunk);
                        assert(rchunks_of(pre, n as nat)[0] == chunk@);
                        assert(chunk@ == total[prev_out.len() as int]);
                    }
                }
                assert forall|q: int|
                    0 <= q < rchunks_of(pre_next, n as nat).len() implies #[trigger] rchunks_of(
                    pre_next,
                    n as nat,
                )[q] == total[out@.len() + q] by {
                    assert(rchunks_of(pre, n as nat)[q + 1] == rchunks_of(pre_next, n as nat)[q]);
                    assert(rchunks_of(pre, n as nat)[q + 1] == total[prev_out.len() + q + 1]);
                }
            }
            j = i;
        }
        proof {
            assert(self@.take(0) =~= Seq::<T>::empty());
        }
        Iterator1::from_iter_unchecked(out)
    }

    /// A non-empty iteration over the elements, in order.
    pub fn iter1(&self) -> (r: Iterator1<&'a T>)
        requires
            self.wf(),
        ensures
            r@.len() == self@.len(),
            forall|i: int| 0 <= i < r@.len() ==> *(#[trigger] r@[i]) == self@[i],
            r.wf(),
    {
        let len = self.items.len();
        let mut out: Vec<&'a T> = Vec::new();
        let mut i: usize = 0;
        while i < len
            invariant
                i <= len,
                len == self@.len(),
                out@.len() == i,
                forall|q: int| 0 <= q < i ==> *(#[trigger] out@[q]) == self@[q],
            decreases len - i,
        {
            out.push(vstd::slice::slice_index_get(self.items, i));
            i = i + 1;
        }
        Iterator1::from_iter_unchecked(out)
    }

    /// Clones the elements into a non-empty owned sequence.
    pub fn to_vec1(&self) -> (r: Vec1<T>) where T: Clone
        requires
            self.wf(),
        ensures
            r@.len() == self@.len(),
            forall|i: int|
                0 <= i < r@.len() ==> vstd::pervasive::cloned(self@[i], #[trigger] r@[i]),
            r.wf(),
    {
        let len = self.items.len();
        let mut out: Vec<T> = Vec::new();
        let mut i: usize = 0;
        while i < len
            invariant
                i <= len,
                len == self@.len(),
                out@.len() == i,
                forall|q: int|
                    0 <= q < i ==> vstd::pervasive::cloned(self@[q], #[trigger] out@[q]),
            decreases len - i,
        {
            out.push(vstd::slice::slice_index_get(self.items, i).clone());
            i = i + 1;
        }
        Vec1::from_vec_unchecked(out)
    }

    /// Dissolves the view into a non-empty owned sequence of cloned
    /// elements.
    pub fn into_vec1(self) -> (r: Vec1<T>) where T: Clone
        requires
            self.wf(),
        ensures
            r@.len() == self@.len(),
            forall|i: int|
                0 <= i < r@.len() ==> vstd::pervasive::cloned(self@[i], #[trigger] r@[i]),
            r.wf(),
    {
        self.to_vec1()
    }

    /// One copy of the view and then `n` more, concatenated into a
    /// non-empty owned sequence. Fails explicitly — reporting the overflow,
    /// never wrapping around — when the resulting length would exceed the
    /// maximum representable length.
    pub fn once_and_then_repeat(&self, n: usize) -> (r: Result<Vec1<T>, SizeOverflow>) where
        T: Copy,

        requires
            self.wf(),
        ensures
            self@.len() * (n as int + 1) <= usize::MAX ==> (r matches Ok(w) && w@ == repeat_of(
                self@,
                n as nat + 1,
            ) && w.wf()),
            self@.len() * (n as int + 1) > usize::MAX ==> (r is Err),
    {
        let len = self.items.len();
        if n == usize::MAX {
            proof {
                vstd::arithmetic::mul::lemma_mul_inequality(1, len as int, n as int + 1);
            }
            return Err(SizeOverflow);
        }
        let k = n + 1;
        if len > usize::MAX / k {
            proof {
                let last = usize::MAX as int;
                let kk = k as int;
                vstd::arithmetic::div_mod::lemma_fundamental_div_mod(last, kk);
                vstd::arithmetic::div_mod::lemma_mod_division_less_than_divisor(last, kk);
                vstd::arithmetic::mul::lemma_mul_inequality(last / kk + 1, len as int, kk);
                assert((last / kk + 1) * kk == (last / kk) * kk + kk) by (nonlinear_arith);
                assert(kk * (last / kk) == (last / kk) * kk) by (nonlinear_arith);
            }
            return Err(SizeOverflow);
        }
        proof {
            let last = usize::MAX as int;
            let kk = k as int;
            vstd::arithmetic::div_mod::lemma_fundamental_div_mod(last, kk);
            vstd::arithmetic::div_mod::lemma_mod_division_less_than_divisor(last, kk);
            vstd::arithmetic::mul::lemma_mul_inequality(len as int, last / kk, kk);
            assert(kk * (last / kk) == (last / kk) * kk) by (nonlinear_arith);
        }
        let mut out: Vec<T> = Vec::new();
        let mut c: usize = 0;
        while c < k
            invariant
                c <= k,
                len == self@.len(),
                self.wf(),
                out@ == repeat_of(self@, c as nat),
            decreases k - c,
        {
            let mut i: usize = 0;
            while i < len
                invariant
                    i <= len,
                    len == self@.len(),
                    self.wf(),
                    out@ == repeat_of(self@, c as nat) + self@.take(i as int),
                decreases len - i,
            {
                let x = *vstd::slice::slice_index_get(self.items, i);
                out.push(x);
                proof {
                    assert(repeat_of(self@, c as nat) + self@.take(i as int) + seq![x]
                        =~= repeat_of(self@, c as nat) + self@.take(i as int + 1));
                }
                i = i + 1;
            }
            proof {
                lemma_repeat_of_snoc(self@, c as nat);
                assert(self@.take(len as int) =~= self@);
                assert(out@ == repeat_of(self@, c as nat + 1));
            }
            c = c + 1;
        }
        proof {
            lemma_repeat_of_len(self@, k as nat);
        }
        Ok(Vec1::from_vec_unchecked(out))
    }

    /// The number of elements, as a provably-positive count.
    pub fn len(&self) -> (r: NonZeroLen)
        requires
            self.wf(),
        ensures
            r@ == self@.len(),
    {
        NonZeroExt::new_maybe_unchecked(self.items.len())
    }

    /// The plain, unproven view. Wrapping never changed it.
    pub fn as_slice(&self) -> (r: &'a [T])
        ensures
            r@ == self@,
    {
        self.items
    }
}

/// Law: wrapping and unwrapping a view are mutually inverse. A wrapper built
/// from a non-empty view — as [`Slice1::try_from_slice`] builds it — has
/// exactly that view, so the plain view recovered from the wrapper equals
/// the one that was wrapped; and the recovered view is never empty, so
/// wrapping it again always succeeds.
pub proof fn lemma_slice_round_trip<'a, T>(items: Seq<T>, w: Slice1<'a, T>)
    requires
        items.len() >= 1,
        w@ == items,
    ensures
        w.wf(),
        w@.len() >= 1,
{
}

/// The error reported when a derived construction would exceed the maximum
/// representable length: the construction is refused, the length never
/// silently wraps around.
#[derive(Clone, Copy, Debug, PartialEq, Eq, Structural)]
pub struct SizeOverflow;

/// `s` concatenated with itself, `k` copies in all.
pub open spec fn repeat_of<T>(s: Seq<T>, k: nat) -> Seq<T>
    decreases k,
{
    if k == 0 {
        Seq::empty()
    } else {
        s + repeat_of(s, (k - 1) as nat)
    }
}

/// Law: repeating a sequence `k` times in all produces exactly `k` times
/// its length.
pub proof fn lemma_repeat_of_len<T>(s: Seq<T>, k: nat)
    ensures
        repeat_of(s, k).len() == s.len() * k,
    decreases k,
{
    if k > 0 {
        lemma_repeat_of_len(s, (k - 1) as nat);
        assert(s.len() * k == s.len() + s.len() * (k - 1)) by (nonlinear_arith);
    } else {
        vstd::arithmetic::mul::lemma_mul_basics(s.len() as int);
    }
}

/// One more copy can as well be appended at the end as prepended at the
/// front.
proof fn lemma_repeat_of_snoc<T>(s: Seq<T>, k: nat)
    ensures
        repeat_of(s, k + 1) == repeat_of(s, k) + s,
    decreases k,
{
    if k == 0 {
        assert(repeat_of(s, 1) =~= repeat_of(s, 0) + s);
    } else {
        lemma_repeat_of_snoc(s, (k - 1) as nat);
        assert(s + (repeat_of(s, (k - 1) as nat) + s) =~= (s + repeat_of(s, (k - 1) as nat))
            + s);
    }
}

/// A non-empty view of the single referenced element.
pub fn from_ref<T>(item: &T) -> (r: Slice1<'_, T>)
    ensures
        r@ == seq![*item],
        r.wf(),
{
    Slice1::from_slice_unchecked(slice_of_ref(item))
}

/// Relies on `core::slice::from_ref`: the returned slice holds exactly the
/// one referenced element.
#[verifier::external_body]
fn slice_of_ref<'a, T>(item: &'a T) -> (r: &'a [T])
    ensures
        r@ == seq![*item],
{
    core::slice::from_ref(item)
}

/// The chunking of `s` into pieces of `n` elements, in order: every chunk
/// but possibly the last holds exactly `n` elements, and the last holds the
/// remainder.
pub open spec fn chunks_of<T>(s: Seq<T>, n: nat) -> Seq<Seq<T>>
    decreases s.len(),
    when n >= 1
{
    if s.len() == 0 {
        Seq::empty()
    } else if s.len() <= n {
        seq![s]
    } else {
        seq![s.take(n as int)] + chunks_of(s.skip(n as int), n)
    }
}

/// The chunking of `s` into pieces of `n` elements taken from the end, in
/// order from the end: every chunk but possibly the last holds exactly `n`
/// elements, and the last — the front remainder — holds the rest.
pub open spec fn rchunks_of<T>(s: Seq<T>, n: nat) -> Seq<Seq<T>>
    decreases s.len(),
    when n >= 1
{
    if s.len() == 0 {
        Seq::empty()
    } else if s.len() <= n {
        seq![s]
    } else {
        seq![s.skip(s.len() - n)] + rchunks_of(s.take(s.len() - n), n)
    }
}

/// Law: chunking a non-empty sequence by a positive chunk size yields
/// exactly `(len + n - 1) / n` chunks — the length divided by `n`, rounded
/// up, so always at least one —, every chunk holds between one and `n`
/// elements, and the chunks concatenated in order reconstruct the sequence.
pub proof fn lemma_chunks_of<T>(s: Seq<T>, n: nat)
    requires
        s.len() >= 1,
        n >= 1,
    ensures
        chunks_of(s, n).len() == (s.len() + n - 1) / (n as int),
        chunks_of(s, n).len() >= 1,
        forall|i: int|
            0 <= i < chunks_of(s, n).len() ==> 1 <= (#[trigger] chunks_of(s, n)[i]).len() <= n,
        chunks_of(s, n).flatten() == s,
    decreases s.len(),
{
    broadcast use vstd::arithmetic::div_mod::lemma_div_plus_one;

    let c = chunks_of(s, n);
    if s.len() <= n {
        assert((s.len() + n - 1) / (n as int) == 1) by {
            assert(1 + (s.len() - 1) / (n as int) == (n + (s.len() - 1)) / (n as int));
            assert((s.len() - 1) / (n as int) == 0) by {
                vstd::arithmetic::div_mod::lemma_basic_div(s.len() - 1, n as int);
            }
        }
        c.lemma_flatten_one_element();
    } else {
        let rest = s.skip(n as int);
        lemma_chunks_of(rest, n);
        assert(c.len() == (s.len() + n - 1) / (n as int)) by {
            assert(1 + (rest.len() + n - 1) / (n as int) == (n + (rest.len() + n - 1)) / (
            n as int));
            assert(n + (rest.len() + n - 1) == s.len() + n - 1);
        }
        assert forall|i: int| 0 <= i < c.len() implies 1 <= (#[trigger] c[i]).len() <= n by {
            if i > 0 {
                assert(c[i] == chunks_of(rest, n)[i - 1]);
            }
        }
        assert(c.flatten() == s) by {
            assert(c.first() == s.take(n as int));
            assert(c.drop_first() =~= chunks_of(rest, n));
            assert(c.flatten() == s.take(n as int) + chunks_of(rest, n).flatten());
            assert(s.take(n as int) + rest =~= s);
        }
    }
}

/// Law: chunking from the end obeys the same arithmetic as chunking from
/// the front — exactly `(len + n - 1) / n` chunks, each holding between one
/// and `n` elements — and the chunks concatenated in reverse order
/// reconstruct the sequence.
pub proof fn lemma_rchunks_of<T>(s: Seq<T>, n: nat)
    requires
        s.len() >= 1,
        n >= 1,
    ensures
        rchunks_of(s, n).len() == (s.len() + n - 1) / (n as int),
        rchunks_of(s, n).len() >= 1,
        forall|i: int|
            0 <= i < rchunks_of(s, n).len() ==> 1 <= (#[trigger] rchunks_of(s, n)[i]).len() <= n,
        rchunks_of(s, n).reverse().flatten() == s,
    decreases s.len(),
{
    broadcast use vstd::arithmetic::div_mod::lemma_div_plus_one;

    let c = rchunks_of(s, n);
    if s.len() <= n {
        assert((s.len() + n - 1) / (n as int) == 1) by {
            assert(1 + (s.len() - 1) / (n as int) == (n + (s.len() - 1)) / (n as int));
            assert((s.len() - 1) / (n as int) == 0) by {
                vstd::arithmetic::div_mod::lemma_basic_div(s.len() - 1, n as int);
            }
        }
        assert(c.reverse() =~= seq![s]);
        c.reverse().lemma_flatten_one_element();
    } else {
        let front = s.take(s.len() - n);
        lemma_rchunks_of(front, n);
        assert(c.len() == (s.len() + n - 1) / (n as int)) by {
            assert(1 + (front.len() + n - 1) / (n as int) == (n + (front.len() + n - 1)) / (
            n as int));
            assert(n + (front.len() + n - 1) == s.len() + n - 1);
        }
        assert forall|i: int| 0 <= i < c.len() implies 1 <= (#[trigger] c[i]).len() <= n by {
            if i > 0 {
                assert(c[i] == rchunks_of(front, n)[i - 1]);
            }
        }
        assert(c.reverse().flatten() == s) by {
            let rev = c.reverse();
            assert(rev =~= rchunks_of(front, n).reverse().push(s.skip(s.len() - n)));
            rchunks_of(front, n).reverse().lemma_flatten_push(s.skip(s.len() - n));
            assert(rev.flatten() == rchunks_of(front, n).reverse().flatten() + s.skip(
                s.len() - n,
            ));
            assert(front + s.skip(s.len() - n) =~= s);
        }
    }
}

impl<'a, T> FromMaybeEmpty<T, &'a [T]> for Slice1<'a, T> {
    fn try_from_maybe_empty(c: &'a [T]) -> (r: Result<Self, &'a [T]>) {
        match c.cardinality() {
            Some(_) => Ok(Slice1 { items: c }),
            None => Err(c),
        }
    }

    fn from_maybe_empty_unchecked(c: &'a [T]) -> (r: Self) {
        Slice1 { items: c }
    }
}

} // verus!
