//! An always-full circular buffer used as a delay line.
use vstd::prelude::*;

verus! {

/// A fixed number of items; one is the newest, and the one after it (wrapping
/// around) is the oldest, the next to be overwritten.
pub struct History<T> {
    items: Vec<T>,
    index: usize,
}

impl<T> History<T> {
    /// The items, by position.
    pub closed spec fn items(&self) -> Seq<T> {
        self.items@
    }

    /// The position of the newest item.
    pub closed spec fn newest_pos(&self) -> int {
        self.index as int
    }

    /// The position of the oldest item.
    pub open spec fn oldest_pos(&self) -> int {
        (self.newest_pos() + 1) % (self.items().len() as int)
    }

    /// Holds at least one item, and the newest position is one of them.
    pub open spec fn wf(&self) -> bool {
        &&& self.items().len() > 0
        &&& 0 <= self.newest_pos() < self.items().len()
    }

    /// A history of `count` clones of `item`, whose newest item is the first.
    pub fn new(item: T, count: usize) -> (r: History<T>)
        where
            T: Clone,
        ensures
            r.items().len() == count,
            r.newest_pos() == 0,
            r.wf() == (count > 0),
            forall|i: int| 0 <= i < count ==> cloned(item, #[trigger] r.items()[i]),
    {
        let mut items: Vec<T> = Vec::new();
        if count > 0 {
            let mut i: usize = 1;
            while i < count
                invariant
                    1 <= i <= count,
                    items@.len() == i - 1,
                    forall|j: int| 0 <= j < items@.len() ==> cloned(item, #[trigger] items@[j]),
                decreases count - i,
            {
                let c = item.clone();
                items.push(c);
                i = i + 1;
            }
            items.push(item);
        }
        History { items, index: 0 }
    }

    /// The position of the oldest item.
    fn oldest_idx(&self) -> (r: usize)
        requires
            self.wf(),
        ensures
            r == self.oldest_pos(),
    {
        assert(self.index < self.items.len());
        (self.index + 1) % self.items.len()
    }

    /// The position of the newest item.
    fn newest_index(&self) -> (r: usize)
        requires
            self.wf(),
        ensures
            r == self.newest_pos(),
    {
        self.index
    }

    /// The oldest item, the one that will be overwritten next.
    pub fn oldest(&self) -> (r: &T)
        requires
            self.wf(),
        ensures
            *r == self.items()[self.oldest_pos()],
    {
        &self.items[self.oldest_idx()]
    }

    /// The newest item.
    pub fn newest(&self) -> (r: &T)
        requires
            self.wf(),
        ensures
            *r == self.items()[self.newest_pos()],
    {
        &self.items[self.newest_index()]
    }

    /// The newest item, to overwrite in place.
    pub fn newest_mut(&mut self) -> (r: &mut T)
        requires
            old(self).wf(),
        ensures
            *r == old(self).items()[old(self).newest_pos()],
            final(self).items() == old(self).items().update(old(self).newest_pos(), *final(r)),
            final(self).newest_pos() == old(self).newest_pos(),
    {
        let i = self.newest_index();
        &mut self.items[i]
    }

    /// Makes the oldest item the newest; the one after it becomes the oldest.
    pub fn advance_newest(&mut self)
        requires
            old(self).wf(),
        ensures
            final(self).wf(),
            final(self).items() == old(self).items(),
            final(self).newest_pos() == old(self).oldest_pos(),
    {
        assert(self.index < self.items.len());
        self.index = (self.index + 1) % self.items.len();
    }
}

} // verus!
