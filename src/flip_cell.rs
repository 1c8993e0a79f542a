//! `FlipCell<T>`: three slots of `T` and one shared-state word, owned jointly
//! by a `FlipWriter<T>` and a `FlipReader<T>`.
//!
//! The writer and the reader each own one slot index; the shared-state word
//! owns the third. Ownership of a slot moves only through an atomic exchange
//! of the word with acquire-and-release ordering, so that the writes made to a
//! slot by the side that gives it up happen before any access by the side
//! that claims it.
use std::cell::UnsafeCell;
use std::sync::atomic::{AtomicU8, Ordering};
use std::sync::Arc;
use vstd::prelude::*;

use crate::shared_state::{
    pack, packed, published_word, returned_word, unpack, word_fresh, word_index, INDEX_MASK,
};

verus! {

/// `std::cell::UnsafeCell` holds the three slots; the library never reads
/// through it, it only builds it and hands out references to it.
#[verifier::external_type_specification]
#[verifier::external_body]
#[verifier::reject_recursive_types(T)]
pub struct ExUnsafeCell<T: ?Sized>(UnsafeCell<T>);

/// Relies on `UnsafeCell::new`: wraps a value, with no other effect.
pub assume_specification<T>[ UnsafeCell::<T>::new ](value: T) -> UnsafeCell<T>;

/// Three slots of `T` and the shared-state word.
///
/// A `FlipCell` is never handled directly: it is created inside an `Arc`
/// shared by one writer and one reader.
#[verifier::reject_recursive_types(T)]
pub struct FlipCell<T> {
    data: [UnsafeCell<T>; 3],
    shared_state: AtomicU8,
}

/// One exchange of the shared word by a handle: the word it handed in and
/// the word it received in the same atomic step.
pub ghost struct Exchange {
    pub handed: u8,
    pub received: u8,
}

/// One `fetch`: the word its advisory load saw, and its exchange if it made
/// one.
pub ghost struct FetchRecord {
    pub peek: u8,
    pub exchange: Option<Exchange>,
}

/// The side that writes values and publishes them.
#[verifier::reject_recursive_types(T)]
pub struct FlipWriter<T> {
    cell: Arc<FlipCell<T>>,
    write_index: u8,
    exchanges: Ghost<Seq<Exchange>>,
}

/// The side that fetches published values and reads them.
#[verifier::reject_recursive_types(T)]
pub struct FlipReader<T> {
    cell: Arc<FlipCell<T>>,
    read_index: u8,
    /// True until `fetch` is first called.
    is_initial: bool,
    fetches: Ghost<Seq<FetchRecord>>,
}

/// A publish by a writer that held `index`, whose exchange was `e`, and that
/// then holds `new_index`: it handed in its index with the freshness flag
/// set, and took the index of the word it received.
pub open spec fn publish_took(index: u8, e: Exchange, new_index: u8) -> bool {
    &&& e.handed == packed(index, true)
    &&& new_index == word_index(e.received)
}

/// A fetch by a reader that held `index`, with first-call flag `is_initial`,
/// that made record `f`, reported `changed`, and then holds `new_index`.
///
/// If the load saw the freshness flag, the reader exchanged its own index,
/// flag clear, for the in-flight one and reports a change. Otherwise it made
/// no exchange, kept its index, and reports a change only on its first call.
pub open spec fn fetch_took(
    index: u8,
    is_initial: bool,
    f: FetchRecord,
    changed: bool,
    new_index: u8,
) -> bool {
    if word_fresh(f.peek) {
        &&& f.exchange matches Some(e)
        &&& f.exchange->Some_0.handed == packed(index, false)
        &&& changed
        &&& new_index == word_index(f.exchange->Some_0.received)
    } else {
        &&& f.exchange is None
        &&& changed == is_initial
        &&& new_index == index
    }
}

/// What a fetch decides from the word its advisory load saw: `Some(changed)`
/// to stop and report `changed`, or `None` to claim the in-flight slot.
pub fn fetch_step(is_initial: bool, peek: u8) -> (r: Option<bool>)
    ensures
        r == if word_fresh(peek) {
            None
        } else {
            Some(is_initial)
        },
{
    let (_, fresh) = unpack(peek);
    if fresh {
        None
    } else {
        Some(is_initial)
    }
}

impl<T> FlipCell<T> {
    /// Builds a cell from three values and returns its two handles.
    ///
    /// `shared_v` starts in flight, not fresh; `writer_v` is the writer's
    /// slot and `reader_v` the reader's.
    pub fn new3(shared_v: T, writer_v: T, reader_v: T) -> (r: (FlipWriter<T>, FlipReader<T>))
        ensures
            r.0.index() == 1,
            r.1.index() == 2,
            r.1.initial(),
            r.0.shared_cell() == r.1.shared_cell(),
            r.0.exchanges().len() == 0,
            r.1.fetches().len() == 0,
    {
        let data = [
            UnsafeCell::new(shared_v),
            UnsafeCell::new(writer_v),
            UnsafeCell::new(reader_v),
        ];
        let shared_state = AtomicU8::new(pack(0, false));
        let writer = Arc::new(FlipCell { data, shared_state });
        let reader = Arc::clone(&writer);
        (
            FlipWriter { cell: writer, write_index: 1, exchanges: Ghost(Seq::empty()) },
            FlipReader { cell: reader, read_index: 2, is_initial: true, fetches: Ghost(Seq::empty()) },
        )
    }

    /// Builds a cell whose three slots start as clones of `value`.
    pub fn new_clone(value: T) -> (r: (FlipWriter<T>, FlipReader<T>))
        where
            T: Clone,
        ensures
            r.0.index() == 1,
            r.1.index() == 2,
            r.1.initial(),
            r.0.shared_cell() == r.1.shared_cell(),
            r.0.exchanges().len() == 0,
            r.1.fetches().len() == 0,
    {
        let shared_v = value.clone();
        let writer_v = value.clone();
        Self::new3(shared_v, writer_v, value)
    }

    /// Builds a cell whose three slots start as `T::default()`.
    pub fn new_default() -> (r: (FlipWriter<T>, FlipReader<T>))
        where
            T: Default,
        ensures
            r.0.index() == 1,
            r.1.index() == 2,
            r.1.initial(),
            r.0.shared_cell() == r.1.shared_cell(),
            r.0.exchanges().len() == 0,
            r.1.fetches().len() == 0,
    {
        Self::new3(T::default(), T::default(), T::default())
    }

    /// The slot at `index`.
    pub closed spec fn slot_at(&self, index: u8) -> UnsafeCell<T> {
        self.data[index as int]
    }
}

impl<T> FlipWriter<T> {
    /// The slot index this writer owns.
    pub closed spec fn index(&self) -> u8 {
        self.write_index
    }

    /// The cell this writer shares with its reader.
    pub closed spec fn shared_cell(&self) -> FlipCell<T> {
        *self.cell
    }

    /// The exchanges this writer has made, oldest first.
    pub closed spec fn exchanges(&self) -> Seq<Exchange> {
        self.exchanges@
    }

    /// The slot index this writer owns.
    pub fn write_index(&self) -> (r: u8)
        ensures
            r == self.index(),
    {
        self.write_index
    }

    /// The slot this writer owns, the only one it may access. Borrowing the
    /// writer mutably keeps it from publishing while the slot is in use.
    pub fn owned_slot(&mut self) -> (r: &UnsafeCell<T>)
        requires
            old(self).index() < 3,
        ensures
            *r == old(self).shared_cell().slot_at(old(self).index()),
    {
        &self.cell.data[self.write_index as usize]
    }

    /// Publishes the owned slot to the reader and takes the in-flight slot
    /// in exchange.
    ///
    /// The owned index, with the freshness flag set, is exchanged into the
    /// shared-state word in one acquire-release step; the index of the word
    /// that was there becomes the owned one.
    pub fn publish(&mut self)
        ensures
            final(self).shared_cell() == old(self).shared_cell(),
            final(self).exchanges().len() == old(self).exchanges().len() + 1,
            final(self).exchanges().drop_last() == old(self).exchanges(),
            publish_took(old(self).index(), final(self).exchanges().last(), final(self).index()),
    {
        let handed = published_word(self.write_index);
        let received = self.cell.shared_state.swap(handed, Ordering::AcqRel);
        let (index, _) = unpack(received);
        self.write_index = index;
        self.exchanges = Ghost(self.exchanges@.push(Exchange { handed, received }));
        assert(self.exchanges@.drop_last() =~= old(self).exchanges@);
    }
}

impl<T> FlipReader<T> {
    /// The reader's index fits in the index bits of the shared word.
    #[verifier::type_invariant]
    spec fn index_in_mask(&self) -> bool {
        self.read_index <= INDEX_MASK
    }

    /// The slot index this reader owns.
    pub closed spec fn index(&self) -> u8 {
        self.read_index
    }

    /// The cell this reader shares with its writer.
    pub closed spec fn shared_cell(&self) -> FlipCell<T> {
        *self.cell
    }

    /// Whether `fetch` has never been called on this reader.
    pub closed spec fn initial(&self) -> bool {
        self.is_initial
    }

    /// The fetches this reader has made, oldest first.
    pub closed spec fn fetches(&self) -> Seq<FetchRecord> {
        self.fetches@
    }

    /// The slot index this reader owns.
    pub fn read_index(&self) -> (r: u8)
        ensures
            r == self.index(),
    {
        self.read_index
    }

    /// The slot this reader owns, the only one it may access.
    pub fn owned_slot(&self) -> (r: &UnsafeCell<T>)
        requires
            self.index() < 3,
        ensures
            *r == self.shared_cell().slot_at(self.index()),
    {
        &self.cell.data[self.read_index as usize]
    }

    /// Claims the in-flight slot if the writer has published it since the
    /// last claim, and reports whether the owned slot is new to the reader.
    ///
    /// The first call reports true even when nothing was published: the
    /// initial value has not been shown to the consumer yet.
    ///
    /// Once the load has seen the freshness flag, the exchange always
    /// receives a fresh word, since only this reader ever clears the flag
    /// (see `protocol::lemma_fresh_persists`). The received word's flag is
    /// therefore not tested again, and this function never panics.
    pub fn fetch(&mut self) -> (changed: bool)
        ensures
            final(self).shared_cell() == old(self).shared_cell(),
            !final(self).initial(),
            old(self).initial() ==> changed,
            final(self).fetches().len() == old(self).fetches().len() + 1,
            final(self).fetches().drop_last() == old(self).fetches(),
            fetch_took(
                old(self).index(),
                old(self).initial(),
                final(self).fetches().last(),
                changed,
                final(self).index(),
            ),
    {
        proof {
            use_type_invariant(&*self);
        }
        let is_initial = self.is_initial;
        self.is_initial = false;
        let peek = self.cell.shared_state.load(Ordering::Relaxed);
        match fetch_step(is_initial, peek) {
            Some(changed) => {
                self.fetches = Ghost(self.fetches@.push(FetchRecord { peek, exchange: None }));
                assert(self.fetches@.drop_last() =~= old(self).fetches@);
                changed
            },
            None => {
                let handed = returned_word(self.read_index);
                let received = self.cell.shared_state.swap(handed, Ordering::AcqRel);
                let (index, _) = unpack(received);
                self.read_index = index;
                self.fetches = Ghost(
                    self.fetches@.push(
                        FetchRecord { peek, exchange: Some(Exchange { handed, received }) },
                    ),
                );
                assert(self.fetches@.drop_last() =~= old(self).fetches@);
                true
            },
        }
    }
}

} // verus!
