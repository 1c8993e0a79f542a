//! The shared-state word: which slot is in flight, and whether it holds a
//! value the writer published and the reader has not claimed yet.
//!
//! The two parts live in one byte so that a single atomic exchange moves
//! both at once.
use vstd::prelude::*;

verus! {

/// Bits of the word that hold the in-flight slot index.
pub const INDEX_MASK: u8 = 0b011;

/// Bit of the word that marks the in-flight slot as freshly published.
pub const FRESH_FLAG: u8 = 0b100;

/// The slot index held by a word.
pub open spec fn word_index(w: u8) -> u8 {
    w & INDEX_MASK
}

/// Whether a word carries the freshness flag.
pub open spec fn word_fresh(w: u8) -> bool {
    w & FRESH_FLAG == FRESH_FLAG
}

/// The word that packs a slot index with a freshness flag.
pub open spec fn packed(index: u8, fresh: bool) -> u8 {
    if fresh {
        index | FRESH_FLAG
    } else {
        index
    }
}

/// Whether a word is one that `pack` can produce.
pub open spec fn well_formed_word(w: u8) -> bool {
    w & !(INDEX_MASK | FRESH_FLAG) == 0 && word_index(w) < 3
}

/// Packs a slot index and a freshness flag into one word.
pub fn pack(index: u8, fresh: bool) -> (w: u8)
    requires
        index < 3,
    ensures
        w == packed(index, fresh),
        word_index(w) == index,
        word_fresh(w) == fresh,
        well_formed_word(w),
{
    proof {
        lemma_packed_parts(index, fresh);
    }
    if fresh {
        index | FRESH_FLAG
    } else {
        index
    }
}

/// Splits a word into its slot index and its freshness flag.
pub fn unpack(w: u8) -> (r: (u8, bool))
    ensures
        r == (word_index(w), word_fresh(w)),
        r.0 <= INDEX_MASK,
{
    proof {
        assert(w & 0b011u8 <= 0b011u8) by (bit_vector);
    }
    (w & INDEX_MASK, w & FRESH_FLAG == FRESH_FLAG)
}

/// The word a writer hands to the exchange when it publishes slot `index`:
/// the index with the freshness flag set.
pub fn published_word(index: u8) -> (w: u8)
    ensures
        w == index | FRESH_FLAG,
        w == packed(index, true),
        word_index(w) == word_index(index),
        word_fresh(w),
{
    proof {
        assert((index | 0b100u8) & 0b011u8 == index & 0b011u8) by (bit_vector);
        assert((index | 0b100u8) & 0b100u8 == 0b100u8) by (bit_vector);
    }
    index | FRESH_FLAG
}

/// The word a reader hands to the exchange when it claims the in-flight
/// slot: its own index, with the freshness flag clear.
pub fn returned_word(index: u8) -> (w: u8)
    requires
        index <= INDEX_MASK,
    ensures
        w == index,
        w == packed(index, false),
        word_index(w) == index,
        !word_fresh(w),
{
    proof {
        assert(index <= 0b011u8 ==> index & 0b011u8 == index) by (bit_vector);
        assert(index <= 0b011u8 ==> index & 0b100u8 == 0) by (bit_vector);
    }
    index
}

/// The index and the flag of a packed word are the ones it was packed from.
pub proof fn lemma_packed_parts(index: u8, fresh: bool)
    requires
        index < 3,
    ensures
        word_index(packed(index, fresh)) == index,
        word_fresh(packed(index, fresh)) == fresh,
        well_formed_word(packed(index, fresh)),
{
    assert(index < 3 ==> (index | 0b100u8) & 0b011u8 == index) by (bit_vector);
    assert(index < 3 ==> (index | 0b100u8) & 0b100u8 == 0b100u8) by (bit_vector);
    assert(index < 3 ==> (index | 0b100u8) & !(0b011u8 | 0b100u8) == 0) by (bit_vector);
    assert(index < 3 ==> index & 0b011u8 == index) by (bit_vector);
    assert(index < 3 ==> index & 0b100u8 == 0) by (bit_vector);
    assert(index < 3 ==> index & !(0b011u8 | 0b100u8) == 0) by (bit_vector);
}

/// Unpacking a packed word gives back exactly the index and flag it was
/// packed from, for every valid index and both flag values.
pub proof fn lemma_unpack_pack(index: u8, fresh: bool)
    requires
        index < 3,
    ensures
        (word_index(packed(index, fresh)), word_fresh(packed(index, fresh))) == (index, fresh),
{
    lemma_packed_parts(index, fresh);
}

/// Packing the parts of a well-formed word gives back that word.
pub proof fn lemma_pack_unpack(w: u8)
    requires
        well_formed_word(w),
    ensures
        packed(word_index(w), word_fresh(w)) == w,
{
    assert(w & !(0b011u8 | 0b100u8) == 0 && w & 0b011u8 < 3 ==> (if w & 0b100u8 == 0b100u8 {
        (w & 0b011u8) | 0b100u8
    } else {
        w & 0b011u8
    }) == w) by (bit_vector);
}

} // verus!
