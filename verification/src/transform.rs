use vstd::prelude::*;
use vstd::string::StrSliceExecFns;

verus! {

/// A transform from one outer item to a nested sequence of result items.
///
/// The value returned for an argument is fixed by `spec_apply`, a pure
/// function of the argument alone. An implementation may carry mutable state
/// (for instrumentation or caching, say), but the items it hands back are
/// determined by its input; what happens when a transform's output depends on
/// hidden state is deliberately left out of this model.
pub trait Transform<A>: Sized {
    type Out;

    /// The sequence of result items that applying the transform to `a` yields.
    spec fn spec_apply(a: A) -> Seq<Self::Out>;

    /// Apply the transform to one outer item.
    fn apply(&mut self, a: A) -> (r: Vec<Self::Out>)
        ensures
            r@ == Self::spec_apply(a),
    ;
}

/// The transform that maps a vector to its own elements, unchanged.
pub struct VecIdentity;

impl<T> Transform<Vec<T>> for VecIdentity {
    type Out = T;

    open spec fn spec_apply(v: Vec<T>) -> Seq<T> {
        v@
    }

    fn apply(&mut self, v: Vec<T>) -> (r: Vec<T>) {
        v
    }
}

/// The transform that maps a string slice to its characters, in order.
pub struct StrChars;

impl<'a> Transform<&'a str> for StrChars {
    type Out = char;

    open spec fn spec_apply(s: &'a str) -> Seq<char> {
        s@
    }

    fn apply(&mut self, s: &'a str) -> (r: Vec<char>) {
        let n = s.unicode_len();
        let mut out: Vec<char> = Vec::new();
        let mut i: usize = 0;
        while i < n
            invariant
                i <= n,
                n == s@.len(),
                out@ == s@.subrange(0, i as int),
            decreases n - i,
        {
            let c = s.get_char(i);
            out.push(c);
            proof {
                assert(out@ =~= s@.subrange(0, i + 1));
            }
            i = i + 1;
        }
        proof {
            assert(out@ =~= s@);
        }
        out
    }
}

/// A transform that wraps another one and counts how often it is applied,
/// saturating at the counter's maximum. The items handed back are exactly
/// those of the wrapped transform, so wrapping changes nothing the consumer
/// of the flattened sequence can see; the count makes the adapter's laziness
/// observable from outside.
pub struct CallCounter<F> {
    pub wrapped: F,
    pub calls: u64,
}

impl<F> CallCounter<F> {
    /// Wrap a transform, with the application count starting at zero.
    pub fn new(wrapped: F) -> (r: Self)
        ensures
            r.wrapped == wrapped,
            r.calls == 0,
    {
        CallCounter { wrapped, calls: 0 }
    }
}

impl<A, F: Transform<A>> Transform<A> for CallCounter<F> {
    type Out = F::Out;

    open spec fn spec_apply(a: A) -> Seq<F::Out> {
        F::spec_apply(a)
    }

    fn apply(&mut self, a: A) -> (r: Vec<F::Out>) {
        if self.calls < u64::MAX {
            self.calls = self.calls + 1;
        }
        self.wrapped.apply(a)
    }
}

} // verus!
