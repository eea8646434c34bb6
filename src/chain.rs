//! The segment chain: an ordered sequence of segments from head to tail.

use vstd::prelude::*;

verus! {

/// An ordered, non-empty sequence of segments, head first.
pub struct List<T> {
    items: Vec<T>,
}

impl<T> View for List<T> {
    type V = Seq<T>;

    closed spec fn view(&self) -> Seq<T> {
        self.items@
    }
}

/// A chain of one segment.
#[allow(non_snake_case)]
pub fn List<T>(x: T) -> (r: List<T>)
    ensures
        r@ == seq![x],
{
    let mut items = Vec::new();
    items.push(x);
    List { items }
}

impl<T> List<T> {
    /// Appends `x` after the current tail.
    pub fn insert(&mut self, x: T)
        ensures
            final(self)@ == old(self)@.push(x),
    {
        self.items.push(x);
    }

    /// The tail segment, if any.
    pub fn last(&self) -> (r: Option<&T>)
        ensures
            self@.len() == 0 ==> r.is_none(),
            self@.len() > 0 ==> r == Some(&self@.last()),
    {
        let n = self.items.len();
        if n == 0 {
            None
        } else {
            Some(&self.items[n - 1])
        }
    }

    /// Number of segments.
    pub fn len(&self) -> (r: usize)
        ensures
            r == self@.len(),
    {
        self.items.len()
    }

    /// The segment at position `i`, counting from the head.
    pub fn get(&self, i: usize) -> (r: &T)
        requires
            i < self@.len(),
        ensures
            *r == self@[i as int],
    {
        &self.items[i]
    }

    /// The head segment.
    pub fn head(&self) -> (r: &T)
        requires
            self@.len() > 0,
        ensures
            *r == self@[0],
    {
        &self.items[0]
    }

    /// Moves the chain one step: `x` becomes the head, every other segment takes
    /// the place that its predecessor held, and the old tail's place, now
    /// vacated, is returned.
    pub fn prepend_propagate(&mut self, x: T) -> (r: T)
        requires
            old(self)@.len() > 0,
        ensures
            final(self)@ == seq![x] + old(self)@.drop_last(),
            r == old(self)@.last(),
    {
        self.items.insert(0, x);
        let r = self.items.pop().unwrap();
        proof {
            assert(self.items@ =~= seq![x] + old(self)@.drop_last());
        }
        r
    }
}

impl<T: Copy> List<T> {
    /// Grows the chain by one segment placed where the tail already is; the
    /// next propagation separates the two.
    pub fn append_at_tail(&mut self)
        requires
            old(self)@.len() > 0,
        ensures
            final(self)@ == old(self)@.push(old(self)@.last()),
    {
        let n = self.items.len();
        let t = self.items[n - 1];
        self.items.push(t);
    }

    /// Where the tail segment is.
    pub fn tail_position(&self) -> (r: T)
        requires
            self@.len() > 0,
        ensures
            r == self@.last(),
    {
        self.items[self.items.len() - 1]
    }
}

} // verus!
