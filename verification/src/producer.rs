use vstd::prelude::*;

verus! {

/// A pull-based cursor over a sequence of items.
///
/// A producer is modeled by the sequence of items it has yet to yield.
/// Each pull either yields the first remaining item and drops it from the
/// model, or signals exhaustion; exhaustion is permanent: once `remaining()`
/// is empty it stays empty.
pub trait Producer: Sized {
    type Item;

    /// The items this producer has yet to yield, in order.
    spec fn remaining(&self) -> Seq<Self::Item>;

    /// Yield the next item, or return `None` once no items remain.
    fn next(&mut self) -> (r: Option<Self::Item>)
        ensures
            old(self).remaining().len() == 0 ==> r is None
                && final(self).remaining() == old(self).remaining(),
            old(self).remaining().len() > 0 ==> r == Some(old(self).remaining()[0])
                && final(self).remaining() == old(self).remaining().drop_first(),
    ;
}

/// A producer that yields the elements of a vector from front to back.
pub struct VecProducer<T> {
    pub items: Vec<T>,
}

impl<T> VecProducer<T> {
    /// Wrap a vector so that its elements can be pulled one at a time.
    pub fn new(items: Vec<T>) -> (r: Self)
        ensures
            r.items == items,
            r.remaining() == items@,
    {
        VecProducer { items }
    }
}

impl<T> Producer for VecProducer<T> {
    type Item = T;

    open spec fn remaining(&self) -> Seq<T> {
        self.items@
    }

    fn next(&mut self) -> (r: Option<T>) {
        if self.items.len() > 0 {
            let item = self.items.remove(0);
            proof {
                assert(self.items@ =~= old(self).items@.drop_first());
            }
            Some(item)
        } else {
            None
        }
    }
}

} // verus!
