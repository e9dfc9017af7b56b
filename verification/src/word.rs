//! Field elements and words.
//!
//! A field element of the Goldilocks field is held as its canonical `u64` representative, and a
//! word is four such elements.

use vstd::prelude::*;

verus! {

/// A field element, held as its canonical representative in `0..FELT_MODULUS`.
pub type Felt = u64;

/// The order of the Goldilocks field, `2^64 - 2^32 + 1`.
pub const FELT_MODULUS: u64 = 0xffff_ffff_0000_0001;

/// The field element zero.
pub const ZERO: Felt = 0;

/// The field element one.
pub const ONE: Felt = 1;

/// The field element that an integer denotes: the integer reduced modulo the field order.
pub open spec fn felt_of(value: int) -> Felt {
    (value % (FELT_MODULUS as int)) as u64
}

/// The canonical representative of the field element that a value denotes.
pub open spec fn canonical(x: Felt) -> Felt {
    felt_of(x as int)
}

/// The word whose elements are the canonical representatives of those of `w`.
pub open spec fn canonical_word(w: Word) -> Word {
    Word(canonical(w.0), canonical(w.1), canonical(w.2), canonical(w.3))
}

/// The canonical representatives of a sequence of values.
pub open spec fn canonical_felts(s: Seq<Felt>) -> Seq<Felt> {
    s.map_values(|x: Felt| canonical(x))
}

/// A value's canonical representative lies below the field order: it is the value itself below
/// the order, and the value less the order above it.
pub proof fn lemma_canonical(x: Felt)
    ensures
        canonical(x) < FELT_MODULUS,
        x < FELT_MODULUS ==> canonical(x) == x,
        x >= FELT_MODULUS ==> canonical(x) == x - FELT_MODULUS,
{
}

/// Converts an integer into the field element that it denotes, reducing it modulo the field
/// order.
pub fn felt_from_u64(value: u64) -> (r: Felt)
    ensures
        r == felt_of(value as int),
        r < FELT_MODULUS,
{
    if value >= FELT_MODULUS {
        value - FELT_MODULUS
    } else {
        value
    }
}

/// Four field elements.
#[derive(Clone, Copy, Debug, PartialEq, Eq, Structural)]
pub struct Word(pub Felt, pub Felt, pub Felt, pub Felt);

impl View for Word {
    type V = Word;

    open spec fn view(&self) -> Word {
        *self
    }
}

impl Word {
    /// The four elements of the word, in order.
    pub open spec fn elements(self) -> Seq<Felt> {
        seq![self.0, self.1, self.2, self.3]
    }

    /// The word whose elements are all zero.
    pub fn empty() -> (w: Word)
        ensures
            w == Word(0, 0, 0, 0),
    {
        Word(ZERO, ZERO, ZERO, ZERO)
    }

    /// Builds a word from an array of four elements.
    pub fn from_array(a: [Felt; 4]) -> (w: Word)
        ensures
            w == Word(a[0], a[1], a[2], a[3]),
    {
        Word(a[0], a[1], a[2], a[3])
    }

    /// The four elements of the word as an array.
    pub fn to_array(&self) -> (a: [Felt; 4])
        ensures
            a@ == self.elements(),
    {
        let a = [self.0, self.1, self.2, self.3];
        assert(a@ =~= self.elements());
        a
    }

    /// The word whose elements are the canonical representatives of this word's elements: the
    /// word that the field compares it as.
    pub fn to_canonical(&self) -> (r: Word)
        ensures
            r == canonical_word(*self),
    {
        Word(felt_from_u64(self.0), felt_from_u64(self.1), felt_from_u64(self.2), felt_from_u64(self.3))
    }

    /// Appends the four elements of the word to `v`.
    pub fn append_to(&self, v: &mut Vec<Felt>)
        ensures
            final(v)@ == old(v)@ + self.elements(),
    {
        v.push(self.0);
        v.push(self.1);
        v.push(self.2);
        v.push(self.3);
        assert(v@ =~= old(v)@ + self.elements());
    }
}

/// The elements of a sequence of words, each word's four elements in turn.
pub open spec fn words_elements(words: Seq<Word>) -> Seq<Felt>
    decreases words.len(),
{
    if words.len() == 0 {
        Seq::empty()
    } else {
        words_elements(words.drop_last()) + words.last().elements()
    }
}

/// The elements of a sequence of words have four times as many entries as there are words.
pub proof fn lemma_words_elements_len(words: Seq<Word>)
    ensures
        words_elements(words).len() == 4 * words.len(),
    decreases words.len(),
{
    if words.len() > 0 {
        lemma_words_elements_len(words.drop_last());
    }
}

} // verus!
