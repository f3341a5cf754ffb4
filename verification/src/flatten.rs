use vstd::prelude::*;
use crate::producer::Producer;
use crate::producer::VecProducer;
use crate::transform::Transform;

verus! {

/// The number of leading items of `s` whose transform under `F` is the
/// empty sequence; `s.len()` when every transform is empty. The item at this
/// index, when there is one, is the first that contributes any flattened
/// item, so a lazy pull may advance the outer cursor at most this far plus
/// one.
pub open spec fn leading_empty_count<A, F: Transform<A>>(s: Seq<A>) -> int
    decreases s.len(),
{
    if s.len() == 0 {
        0
    } else if F::spec_apply(s.first()).len() > 0 {
        0
    } else {
        1 + leading_empty_count::<A, F>(s.drop_first())
    }
}

/// The facts callers need about [`leading_empty_count`]: it is a valid index
/// bound, every transform before it is empty, and the transform at it — when
/// it lies within the sequence — is not.
pub proof fn lemma_leading_empty_count<A, F: Transform<A>>(s: Seq<A>)
    ensures
        0 <= leading_empty_count::<A, F>(s) <= s.len(),
        forall|i: int|
            0 <= i < leading_empty_count::<A, F>(s) ==> F::spec_apply(s[i]).len() == 0,
        leading_empty_count::<A, F>(s) < s.len() ==> F::spec_apply(
            s[leading_empty_count::<A, F>(s)],
        ).len() > 0,
    decreases s.len(),
{
    if s.len() > 0 && F::spec_apply(s.first()).len() == 0 {
        lemma_leading_empty_count::<A, F>(s.drop_first());
        assert forall|i: int|
            0 <= i < leading_empty_count::<A, F>(s) implies F::spec_apply(s[i]).len()
            == 0 by {
            if i > 0 {
                assert(s[i] == s.drop_first()[i - 1]);
            }
        }
    }
}

/// The flattening sequence adapter.
///
/// It owns an outer producer, a transform, and at most one inner producer at
/// a time — the `Option` field makes "no inner cursor" a first-class state,
/// so two inner cursors can never be held at once. The inner producer, when
/// present, is the cursor over the transform of the most recently pulled
/// outer item.
pub struct MySimpleIterator<P, F> where P: Producer, F: Transform<P::Item> {
    pub outer: P,
    pub inner: Option<VecProducer<F::Out>>,
    pub func: F,
}

impl<P, F> MySimpleIterator<P, F> where P: Producer, F: Transform<P::Item> {
    /// The items the held inner producer has yet to yield; empty when no
    /// inner producer is held.
    pub open spec fn inner_rem(&self) -> Seq<F::Out> {
        match self.inner {
            Some(ip) => ip.remaining(),
            None => Seq::empty(),
        }
    }

    /// The transforms of the outer items still to be pulled, one nested
    /// sequence per outer item, in order.
    pub open spec fn transformed_rest(&self) -> Seq<Seq<F::Out>> {
        self.outer.remaining().map_values(|o: P::Item| F::spec_apply(o))
    }

    /// The adapter's model: every item it has yet to yield, in order — what
    /// remains of the current inner sequence, followed by the concatenation
    /// of the transforms of the remaining outer items.
    pub open spec fn flat_remaining(&self) -> Seq<F::Out> {
        self.inner_rem() + self.transformed_rest().flatten()
    }

    /// How many remaining outer items yield no flattened item before the
    /// first one that does.
    pub open spec fn scan_count(&self) -> int {
        leading_empty_count::<P::Item, F>(self.outer.remaining())
    }

    /// Build an adapter from an outer producer and a transform, taking
    /// ownership of both. The adapter starts with no inner producer, so its
    /// remaining items are exactly the concatenation of the transforms of
    /// the outer producer's remaining items.
    pub fn new(outer: P, f: F) -> (r: Self)
        ensures
            r.outer == outer,
            r.func == f,
            r.inner is None,
            r.flat_remaining() == outer.remaining().map_values(
                |o: P::Item| F::spec_apply(o),
            ).flatten(),
    {
        let r = MySimpleIterator { outer, func: f, inner: None };
        proof {
            assert(r.flat_remaining() =~= r.transformed_rest().flatten());
        }
        r
    }

    /// Pull the next flattened item, or report exhaustion.
    ///
    /// The contract pins the whole behaviour down over the model:
    /// - whenever items remain, the first of them is yielded and dropped
    ///   from the model;
    /// - exhaustion is signalled exactly when no items remain, and only
    ///   after the outer producer has been drained, so it is permanent;
    /// - while the held inner producer still has items, neither the outer
    ///   producer nor the transform is touched (the transform is applied
    ///   lazily, one outer item at a time, in order);
    /// - when a new inner sequence is needed, the outer producer is advanced
    ///   exactly past the leading outer items with empty transforms and the
    ///   first one with a non-empty transform — never any further;
    /// - once both the current inner sequence and the outer producer are
    ///   exhausted, further pulls leave the transform untouched.
    #[verifier::loop_isolation(false)]
    pub fn next(&mut self) -> (r: Option<F::Out>)
        ensures
            old(self).flat_remaining().len() == 0 ==> r is None,
            old(self).flat_remaining().len() > 0 ==> r == Some(
                old(self).flat_remaining()[0],
            ) && final(self).flat_remaining() == old(self).flat_remaining().drop_first(),
            r is None ==> final(self).inner is None
                && final(self).outer.remaining().len() == 0
                && final(self).flat_remaining().len() == 0,
            old(self).inner_rem().len() > 0 ==> final(self).outer == old(self).outer
                && final(self).func == old(self).func,
            (old(self).inner_rem().len() == 0 && old(self).flat_remaining().len() > 0)
                ==> final(self).outer.remaining() == old(self).outer.remaining().skip(
                old(self).scan_count() + 1,
            ) && final(self).inner_rem() == F::spec_apply(
                old(self).outer.remaining()[old(self).scan_count()],
            ).drop_first(),
            (old(self).inner_rem().len() == 0 && old(self).outer.remaining().len() == 0)
                ==> final(self).func == old(self).func,
    {
        let ghost old_out = old(self).outer.remaining();
        let ghost scan_bound = leading_empty_count::<P::Item, F>(old_out);
        proof {
            lemma_leading_empty_count::<P::Item, F>(old_out);
        }
        let ghost mut consumed: int = 0;
        loop
            invariant
                self.flat_remaining() == old(self).flat_remaining(),
                old(self).inner_rem().len() > 0 ==> *self == *old(self),
                (old(self).inner_rem().len() == 0 && old(self).outer.remaining().len() == 0)
                    ==> self.func == old(self).func && self.outer.remaining().len() == 0
                    && self.inner_rem().len() == 0,
                old(self).inner_rem().len() == 0 ==> 0 <= consumed <= old_out.len()
                    && self.outer.remaining() == old_out.skip(consumed)
                    && (self.inner is None ==> consumed <= scan_bound)
                    && (self.inner is Some ==> ((consumed == 0 && self.inner_rem().len() == 0)
                    || (1 <= consumed <= scan_bound + 1 && self.inner_rem() == F::spec_apply(
                    old_out[consumed - 1],
                )))),
            decreases 2 * self.outer.remaining().len() + (if self.inner is Some {
                1int
            } else {
                0int
            }),
        {
            let cur = self.inner.take();
            match cur {
                Some(mut ip) => {
                    let ghost pulled = ip.remaining();
                    let ghost rest = self.transformed_rest().flatten();
                    match ip.next() {
                        Some(item) => {
                            proof {
                                assert((pulled + rest)[0] == pulled[0]);
                                assert(pulled.drop_first() + rest =~= (
                                pulled + rest).drop_first());
                            }
                            self.inner = Some(ip);
                            return Some(item);
                        },
                        None => {
                            // The inner producer is exhausted: discard it and
                            // fall back to the outer producer.
                            proof {
                                assert(pulled + rest =~= rest);
                                assert(self.flat_remaining() =~= rest);
                            }
                        },
                    }
                },
                None => {
                    let ghost outer_before = self.outer.remaining();
                    match self.outer.next() {
                        Some(o) => {
                            proof {
                                let tf = |x: P::Item| F::spec_apply(x);
                                assert(outer_before.map_values(tf)[0] == F::spec_apply(
                                outer_before[0]));
                                assert(outer_before.map_values(tf).drop_first()
                                    =~= outer_before.drop_first().map_values(tf));
                            }
                            let items = self.func.apply(o);
                            let ip = VecProducer::new(items);
                            proof {
                                assert(self.transformed_rest()
                                    =~= outer_before.map_values(
                                    |x: P::Item| F::spec_apply(x),
                                ).drop_first());
                            }
                            self.inner = Some(ip);
                            proof {
                                assert(self.flat_remaining() =~= old(self).flat_remaining());
                                if old(self).inner_rem().len() == 0 {
                                    assert(o == old_out.skip(consumed)[0]);
                                    assert(old_out.skip(consumed)[0] == old_out[consumed]);
                                    consumed = consumed + 1;
                                    assert(self.outer.remaining() =~= old_out.skip(consumed));
                                }
                            }
                        },
                        None => {
                            proof {
                                assert(self.transformed_rest().len() == 0);
                                assert(self.flat_remaining() =~= Seq::<F::Out>::empty());
                            }
                            return None;
                        },
                    }
                },
            }
        }
    }

    /// Pull the adapter to exhaustion and collect every yielded item, in
    /// order. For a freshly built adapter this is, by the contract of
    /// [`flat_map`], exactly the concatenation of the transforms of the
    /// outer items.
    pub fn collect_all(self) -> (r: Vec<F::Out>)
        ensures
            r@ == self.flat_remaining(),
    {
        let ghost total = self.flat_remaining();
        let mut cur = self;
        let mut out: Vec<F::Out> = Vec::new();
        loop
            invariant_except_break
                total == out@ + cur.flat_remaining(),
            ensures
                out@ == total,
            decreases cur.flat_remaining().len(),
        {
            let ghost before = cur.flat_remaining();
            match cur.next() {
                Some(item) => {
                    out.push(item);
                    proof {
                        assert(out@ + before.drop_first() =~= total);
                    }
                },
                None => {
                    proof {
                        assert(out@ + before =~= out@);
                    }
                    break;
                },
            }
        }
        out
    }
}

/// The flattening identity: an adapter holding no inner producer — as every
/// freshly built one does — has exactly the concatenation of the transforms
/// of its remaining outer items left to yield. Since by the contracts of
/// [`MySimpleIterator::next`] and [`MySimpleIterator::collect_all`] pulling
/// to exhaustion yields `flat_remaining()` item by item, in order, pulling a
/// fresh adapter to exhaustion yields that concatenation and nothing else.
pub proof fn lemma_flattening_identity<P, F>(a: MySimpleIterator<P, F>) where
    P: Producer,
    F: Transform<P::Item>,

    requires
        a.inner is None,
    ensures
        a.flat_remaining() == a.outer.remaining().map_values(
            |o: P::Item| F::spec_apply(o),
        ).flatten(),
{
    assert(a.flat_remaining() =~= a.transformed_rest().flatten());
}

/// Whatever the transform, an adapter holding no inner producer whose outer
/// producer is exhausted has nothing left to yield: by the contract of
/// [`MySimpleIterator::next`], its very first pull already signals
/// exhaustion.
pub proof fn lemma_empty_outer_exhausted<P, F>(a: MySimpleIterator<P, F>) where
    P: Producer,
    F: Transform<P::Item>,

    requires
        a.inner is None,
        a.outer.remaining().len() == 0,
    ensures
        a.flat_remaining().len() == 0,
{
    assert(a.transformed_rest().len() == 0);
    assert(a.flat_remaining() =~= Seq::<F::Out>::empty());
}

/// An empty nested sequence anywhere in a sequence of sequences contributes
/// nothing to the flattened whole: dropping it leaves the concatenation
/// unchanged. This is the model-level statement that an outer item whose
/// transform is empty adds no items and disturbs no order, wherever in the
/// outer sequence it stands.
pub proof fn lemma_empty_inner_vanishes<T>(ss: Seq<Seq<T>>, i: int)
    requires
        0 <= i < ss.len(),
        ss[i].len() == 0,
    ensures
        ss.flatten() == ss.remove(i).flatten(),
    decreases i,
{
    if i == 0 {
        assert(ss.flatten() == ss.first() + ss.drop_first().flatten());
        assert(ss.first() + ss.drop_first().flatten() =~= ss.drop_first().flatten());
        assert(ss.remove(0) =~= ss.drop_first());
    } else {
        lemma_empty_inner_vanishes(ss.drop_first(), i - 1);
        assert(ss.drop_first().remove(i - 1) =~= ss.remove(i).drop_first());
        assert(ss.flatten() == ss.first() + ss.drop_first().flatten());
        assert(ss.remove(i).flatten() == ss.remove(i).first() + ss.remove(i)
            .drop_first()
            .flatten());
        assert(ss.remove(i).first() == ss.first());
    }
}

/// Build a flattening adapter over `outer`, transforming each outer item
/// with `f`. Pulling the result to exhaustion yields exactly the
/// concatenation of the transforms of the outer items, in order.
pub fn flat_map<P, F>(outer: P, f: F) -> (r: MySimpleIterator<P, F>) where
    P: Producer,
    F: Transform<P::Item>,
    ensures
        r.outer == outer,
        r.func == f,
        r.inner is None,
        r.flat_remaining() == outer.remaining().map_values(
            |o: P::Item| F::spec_apply(o),
        ).flatten(),
{
    MySimpleIterator::new(outer, f)
}

} // verus!
