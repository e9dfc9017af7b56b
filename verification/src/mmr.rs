//! The parts of a partial Merkle mountain range that the advice inputs are built from.

use vstd::prelude::*;

use std::collections::BTreeSet;

use miden_crypto::merkle::mmr::{Forest, InOrderIndex, MmrPeaks, PartialMmr};
use miden_crypto::{Felt as CoreFelt, Word as CoreWord};

use vstd::arithmetic::div_mod::{lemma_mod_mod, lemma_small_mod};
use vstd::arithmetic::power2::{lemma2_to64, lemma_pow2_adds, lemma_pow2_pos, lemma_pow2_unfold, pow2};

use crate::merkle::InnerNode;
use crate::word::{words_elements, lemma_words_elements_len, Felt, Word, ZERO};

verus! {

/// The number of one bits in the binary form of `n`.
pub open spec fn count_ones(n: nat) -> nat
    decreases n,
{
    if n == 0 {
        0
    } else {
        (n % 2) + count_ones(n / 2)
    }
}

/// A number has no more one bits than its value.
pub proof fn lemma_count_ones_le(n: nat)
    ensures
        count_ones(n) <= n,
    decreases n,
{
    if n > 0 {
        lemma_count_ones_le(n / 2);
    }
}

/// Counts the one bits in the binary form of `n`.
pub fn ones_in(n: usize) -> (r: usize)
    ensures
        r == count_ones(n as nat),
{
    let mut x = n;
    let mut r: usize = 0;
    while x > 0
        invariant
            r + count_ones(x as nat) == count_ones(n as nat),
            r <= n - x,
        decreases x,
    {
        r = r + x % 2;
        x = x / 2;
    }
    r
}

/// Whether appending a leaf to a forest of `big - 1` leaves, without keeping its path, may
/// write a node at the in-order index `idx`, counting the merges from the one whose right node
/// stands at level `log2(p)`. With `big` leaves once the leaf is appended, the merge at level
/// `t >= 1` happens when `2^(t + 1)` divides `big`; it writes at most the new inner node at
/// `2 * big - 2^t` and the old peak beside it at `2 * big - 3 * 2^t`.
pub open spec fn add_writes_from(big: nat, p: nat, idx: int) -> bool
    decreases big - p,
{
    if p >= 1 && 2 * p <= big && big % (2 * p) == 0 {
        idx == 2 * big - p || idx == 2 * big - 3 * p || add_writes_from(big, 2 * p, idx)
    } else {
        false
    }
}

/// Whether appending a leaf, without keeping its path, to a forest of `forest` leaves may write
/// a node at the in-order index `idx`: the inner nodes above the merged peaks and the peaks of
/// two leaves or more that the merges take in.
pub open spec fn add_writes(forest: nat, idx: int) -> bool {
    add_writes_from(forest + 1, 2, idx)
}

/// Whether the merge at level `t` of appending a leaf, so that the forest has `big` leaves,
/// writes at `idx`: it happens when `2^(t + 1)` divides `big`, and writes the new inner node at
/// `2 * big - 2^t` and the old peak beside it at `2 * big - 3 * 2^t`.
pub open spec fn merge_writes(big: nat, t: nat, idx: int) -> bool {
    &&& t >= 1
    &&& big % pow2(t + 1) == 0
    &&& (idx == 2 * big - pow2(t) || idx == 2 * big - 3 * pow2(t))
}

proof fn lemma_not_divisible_above(big: nat, t: nat, t2: nat)
    requires
        big % pow2(t + 1) != 0,
        t2 >= t,
    ensures
        big % pow2(t2 + 1) != 0,
{
    lemma_pow2_pos(t + 1);
    lemma_pow2_pos((t2 - t) as nat);
    lemma_pow2_adds(t + 1, (t2 - t) as nat);
    assert((t + 1) + (t2 - t) as nat == t2 + 1);
    let a: int = pow2(t + 1) as int;
    let b: int = pow2((t2 - t) as nat) as int;
    let x: int = big as int;
    lemma_mod_mod(x, a, b);
    assert(a * b == pow2(t2 + 1) as int);
    if big % pow2(t2 + 1) == 0 {
        assert(x % (a * b) == 0);
        assert(0int % a == 0) by {
            lemma_small_mod(0, a as nat);
        }
        assert(x % a == 0);
        assert(big % pow2(t + 1) == 0);
    }
}

proof fn lemma_add_writes_from(big: nat, t: nat, idx: int)
    requires
        big >= 1,
        t >= 1,
    ensures
        add_writes_from(big, pow2(t), idx) <==> exists|t2: nat| t2 >= t && #[trigger] merge_writes(big, t2, idx),
    decreases big - pow2(t),
{
    let p = pow2(t);
    lemma_pow2_pos(t);
    lemma_pow2_unfold(t + 1);
    assert(pow2(t + 1) == 2 * p);
    if 2 * p <= big && big % (2 * p) == 0 {
        lemma_add_writes_from(big, t + 1, idx);
        if add_writes_from(big, p, idx) {
            if idx == 2 * big - p || idx == 2 * big - 3 * p {
                assert(merge_writes(big, t, idx));
            } else {
                let t2 = choose|t2: nat| t2 >= t + 1 && #[trigger] merge_writes(big, t2, idx);
                assert(merge_writes(big, t2, idx));
            }
        }
        if exists|t2: nat| t2 >= t && #[trigger] merge_writes(big, t2, idx) {
            let t2 = choose|t2: nat| t2 >= t && #[trigger] merge_writes(big, t2, idx);
            if t2 > t {
                assert(t2 >= t + 1 && merge_writes(big, t2, idx));
            }
        }
    } else {
        if 2 * p > big {
            lemma_small_mod(big, 2 * p);
        }
        assert(big % pow2(t + 1) != 0);
        assert forall|t2: nat| t2 >= t implies !#[trigger] merge_writes(big, t2, idx) by {
            lemma_not_divisible_above(big, t, t2);
        }
    }
}

/// Appending a leaf, without keeping its path, to a forest of `forest` leaves writes at `idx`
/// exactly when one of its merges does: at some level `t >= 1` with `2^(t + 1)` dividing
/// `forest + 1`, at the new inner node `2 * (forest + 1) - 2^t` or at the old peak
/// `2 * (forest + 1) - 3 * 2^t` beside it.
pub proof fn lemma_add_writes(forest: nat, idx: int)
    ensures
        add_writes(forest, idx) <==> exists|t: nat| #[trigger] merge_writes(forest + 1, t, idx),
{
    lemma2_to64();
    lemma_add_writes_from(forest + 1, 1, idx);
    if exists|t: nat| #[trigger] merge_writes(forest + 1, t, idx) {
        let t = choose|t: nat| #[trigger] merge_writes(forest + 1, t, idx);
        assert(t >= 1);
    }
}

/// Whether appending a leaf, without keeping its path, to a forest of `forest` leaves may
/// write a node at the in-order index `idx`.
pub fn add_may_write(forest: usize, idx: usize) -> (b: bool)
    requires
        forest < usize::MAX / 8,
    ensures
        b == add_writes(forest as nat, idx as int),
{
    let big = forest + 1;
    let mut p: usize = 2;
    while 2 * p <= big && big % (2 * p) == 0
        invariant
            big == forest + 1,
            big <= usize::MAX / 8,
            1 <= p <= 2 * big,
            add_writes(forest as nat, idx as int) == add_writes_from(big as nat, p as nat, idx as int),
        decreases big - p,
    {
        if idx == 2 * big - p || idx == 2 * big - 3 * p {
            return true;
        }
        p = 2 * p;
    }
    false
}

/// A partial Merkle mountain range, given by its parts: the number of leaves (the forest), the
/// peaks, the known nodes under their in-order indices, and the positions of the leaves whose paths are kept.
pub struct MmrParts {
    pub forest: usize,
    pub peaks: Vec<Word>,
    pub nodes: Vec<(usize, Word)>,
    pub kept_leaves: Vec<usize>,
}

impl MmrParts {
    /// The parts are consistent: one peak per tree of the forest, node indices that are in-order
    /// indices within the forest, kept leaves within the forest, no node at an index that
    /// appending a leaf writes (the peaks that it merges and the inner nodes above them), and a
    /// forest small enough that the index arithmetic cannot overflow.
    pub open spec fn wf(&self) -> bool {
        &&& self.peaks@.len() == count_ones(self.forest as nat)
        &&& self.forest < usize::MAX / 8
        &&& forall|i: int| 0 <= i < self.nodes@.len() ==> 0 < #[trigger] self.nodes@[i].0 <= 2 * self.forest
        &&& forall|i: int| 0 <= i < self.kept_leaves@.len() ==> #[trigger] self.kept_leaves@[i] < self.forest
        &&& forall|i: int| 0 <= i < self.nodes@.len() ==> !add_writes(self.forest as nat, #[trigger] self.nodes@[i].0 as int)
    }

    /// Whether the parts are consistent, as `wf` states.
    pub fn is_valid(&self) -> (b: bool)
        ensures
            b == self.wf(),
    {
        if self.forest >= usize::MAX / 8 {
            return false;
        }
        if self.peaks.len() != ones_in(self.forest) {
            return false;
        }
        let n = self.nodes.len();
        let mut i: usize = 0;
        while i < n
            invariant
                n == self.nodes@.len(),
                i <= n,
                self.forest < usize::MAX / 8,
                forall|j: int| 0 <= j < i ==> 0 < #[trigger] self.nodes@[j].0 <= 2 * self.forest,
                forall|j: int| 0 <= j < i ==> !add_writes(self.forest as nat, #[trigger] self.nodes@[j].0 as int),
            decreases n - i,
        {
            let idx = self.nodes[i].0;
            if idx == 0 || idx > 2 * self.forest {
                return false;
            }
            if add_may_write(self.forest, idx) {
                return false;
            }
            i = i + 1;
        }
        let t = self.kept_leaves.len();
        let mut i: usize = 0;
        while i < t
            invariant
                t == self.kept_leaves@.len(),
                i <= t,
                forall|j: int| 0 <= j < i ==> #[trigger] self.kept_leaves@[j] < self.forest,
            decreases t - i,
        {
            if self.kept_leaves[i] >= self.forest {
                return false;
            }
            i = i + 1;
        }
        true
    }
}

/// The nodes, under their in-order indices, that `miden_crypto::merkle::mmr::PartialMmr::add`
/// inserts when it appends `leaf`, without keeping its path, to the partial MMR given by the
/// parts.
pub uninterp spec fn mmr_added_nodes(
    forest: usize,
    peaks: Seq<Word>,
    nodes: Seq<(usize, Word)>,
    kept_leaves: Seq<usize>,
    leaf: Word,
) -> Seq<(usize, Word)>;

/// Builds the partial MMR of `mmr` with `PartialMmr::from_parts_unchecked` and appends `leaf`
/// with `PartialMmr::add`, without keeping its path; returns the nodes that `add` reports it
/// inserted, each under its in-order index. They are what `mmr_added_nodes` names. The indices
/// are in-order indices of the forest once the leaf is appended, which `miden-crypto` builds from
/// non-zero indices and which lie below `2 * (forest + 1)`. `mmr.wf()` rules out a stored node
/// at any index that `add` may write (`add_writes`), so the check in `PartialMmr::add` that it does not
/// overwrite a different node never fails.
#[verifier::external_body]
pub(crate) fn partial_mmr_add(mmr: &MmrParts, leaf: Word) -> (r: Vec<(usize, Word)>)
    requires
        mmr.wf(),
    ensures
        r@ == mmr_added_nodes(mmr.forest, mmr.peaks@, mmr.nodes@, mmr.kept_leaves@, leaf),
        forall|i: int| 0 <= i < r@.len() ==> 0 < #[trigger] r@[i].0 < 2 * (mmr.forest + 1),
{
    let w = |x: &Word| CoreWord::new(x.to_array().map(CoreFelt::new));
    let peaks = MmrPeaks::new(Forest::new(mmr.forest), mmr.peaks.iter().map(w).collect()).unwrap();
    let nodes = mmr.nodes.iter().map(|(i, x)| (InOrderIndex::new((*i).try_into().unwrap()), w(x)));
    let kept = mmr.kept_leaves.iter().copied().collect();
    let mut partial = PartialMmr::from_parts_unchecked(peaks, nodes.collect(), kept);
    partial.add(w(&leaf), false).iter().map(|(i, x)| (i.inner(), Word::from_array(x.into()))).collect()
}

/// The inner nodes that `miden_crypto::merkle::mmr::PartialMmr::inner_nodes` yields for
/// `leaves` on a partial MMR whose nodes are `nodes`, later entries replacing earlier ones
/// under the same index. `inner_nodes` reads nothing of the partial MMR but its nodes.
pub uninterp spec fn mmr_inner_nodes(nodes: Seq<(usize, Word)>, leaves: Seq<(usize, Word)>) -> Seq<InnerNode>;

/// Collects `PartialMmr::inner_nodes` for `leaves` on a partial MMR built with
/// `PartialMmr::from_parts_unchecked` from `nodes`, with no peaks and no kept leaf, which that
/// method does not read. What comes out is what `mmr_inner_nodes` names.
#[verifier::external_body]
pub(crate) fn partial_mmr_inner_nodes(nodes: &Vec<(usize, Word)>, leaves: &Vec<(usize, Word)>) -> (r: Vec<InnerNode>)
    requires
        forall|i: int| 0 <= i < nodes@.len() ==> 0 < #[trigger] nodes@[i].0 < usize::MAX / 4,
        forall|i: int| 0 <= i < leaves@.len() ==> #[trigger] leaves@[i].0 < usize::MAX / 8,
    ensures
        r@ == mmr_inner_nodes(nodes@, leaves@),
{
    let w = |x: &Word| CoreWord::new(x.to_array().map(CoreFelt::new));
    let nodes = nodes.iter().map(|(i, x)| (InOrderIndex::new((*i).try_into().unwrap()), w(x)));
    let partial = PartialMmr::from_parts_unchecked(MmrPeaks::default(), nodes.collect(), BTreeSet::new());
    let nodes = partial.inner_nodes(leaves.iter().map(|(p, x)| (*p, w(x))));
    nodes.map(|n| InnerNode::from_arrays(n.value.into(), n.left.into(), n.right.into())).collect()
}

/// The hash that `miden_crypto::hash::poseidon2::Poseidon2::hash_elements` gives a sequence of
/// field elements, each value taken as the field element that it denotes.
pub uninterp spec fn poseidon2_hash_elements(elements: Seq<Felt>) -> Word;

/// Hashes the peaks of `mmr` with `MmrPeaks::hash_peaks`, on `MmrPeaks::new` of its forest and
/// peaks. `hash_peaks` hashes the flattened and padded peaks with `Poseidon2::hash_elements`, so
/// the result is `poseidon2_hash_elements` of `padded_peaks`.
#[verifier::external_body]
pub(crate) fn hash_mmr_peaks(mmr: &MmrParts) -> (h: Word)
    requires
        mmr.wf(),
    ensures
        h == poseidon2_hash_elements(padded_peaks(mmr.peaks@)),
{
    let w = |x: &Word| CoreWord::new(x.to_array().map(CoreFelt::new));
    let peaks = MmrPeaks::new(Forest::new(mmr.forest), mmr.peaks.iter().map(w).collect()).unwrap();
    Word::from_array(peaks.hash_peaks().into())
}

/// The number of field elements that the padded peaks of `num_peaks` peaks take: the elements
/// of at least sixteen peaks, and of an even number of them.
pub open spec fn padded_peaks_len(num_peaks: nat) -> nat {
    if num_peaks < 16 {
        64
    } else if num_peaks % 2 == 1 {
        (num_peaks + 1) * 4
    } else {
        num_peaks * 4
    }
}

/// The elements of the peaks, padded with zeros to the length `padded_peaks_len` gives.
pub open spec fn padded_peaks(peaks: Seq<Word>) -> Seq<Felt> {
    words_elements(peaks) + Seq::new(
        (padded_peaks_len(peaks.len()) - 4 * peaks.len()) as nat,
        |i: int| ZERO,
    )
}

/// The padded peaks take at least sixteen words and an even number of words: they start with
/// the elements of the peaks, and every element after those is zero.
pub proof fn lemma_padded_peaks_shape(peaks: Seq<Word>)
    ensures
        padded_peaks(peaks).len() == padded_peaks_len(peaks.len()),
        padded_peaks(peaks).len() >= 64,
        padded_peaks(peaks).len() % 8 == 0,
        padded_peaks(peaks).len() >= 4 * peaks.len(),
        padded_peaks(peaks).take(4 * peaks.len() as int) == words_elements(peaks),
        forall|i: int| 4 * peaks.len() <= i < padded_peaks(peaks).len() ==> #[trigger] padded_peaks(peaks)[i] == ZERO,
{
    lemma_words_elements_len(peaks);
    assert(padded_peaks(peaks).take(4 * peaks.len() as int) =~= words_elements(peaks));
}

/// The padded peaks take the words of the peaks rounded up to an even number, and at least
/// sixteen words: `8 * max(8, ceil(n / 2))` elements for `n` peaks.
pub proof fn lemma_padded_peaks_len(peaks: Seq<Word>)
    ensures
        padded_peaks(peaks).len() == 8 * (if (peaks.len() + 1) / 2 < 8 { 8 } else { (peaks.len() + 1) / 2 }),
{
    lemma_padded_peaks_shape(peaks);
}

/// A number's one bits: none for zero, those of its half for an even number, and one more for an
/// odd number.
pub proof fn lemma_count_ones(n: nat)
    ensures
        count_ones(0) == 0,
        count_ones(2 * n) == count_ones(n),
        count_ones(2 * n + 1) == count_ones(n) + 1,
{
    if n > 0 {
        assert((2 * n) % 2 == 0 && (2 * n) / 2 == n);
    }
    assert((2 * n + 1) % 2 == 1 && (2 * n + 1) / 2 == n);
}

/// Flattens the peaks into their elements and pads them with zeros, as
/// `MmrPeaks::flatten_and_pad_peaks` does.
pub fn flatten_and_pad_peaks(peaks: &Vec<Word>) -> (r: Vec<Felt>)
    requires
        4 * peaks@.len() + 4 < usize::MAX,
    ensures
        r@ == padded_peaks(peaks@),
        r@.len() == padded_peaks_len(peaks@.len()),
{
    let num_peaks = peaks.len();
    let len = if num_peaks < 16 {
        64
    } else if num_peaks % 2 == 1 {
        (num_peaks + 1) * 4
    } else {
        num_peaks * 4
    };
    let mut r: Vec<Felt> = Vec::new();
    let mut i: usize = 0;
    while i < num_peaks
        invariant
            num_peaks == peaks@.len(),
            i <= num_peaks,
            r@ == words_elements(peaks@.take(i as int)),
        decreases num_peaks - i,
    {
        peaks[i].append_to(&mut r);
        assert(peaks@.take(i + 1).drop_last() =~= peaks@.take(i as int));
        i = i + 1;
    }
    assert(peaks@.take(num_peaks as int) =~= peaks@);
    proof { lemma_words_elements_len(peaks@); }
    let ghost flat = r@;
    while r.len() < len
        invariant
            len == padded_peaks_len(num_peaks as nat),
            flat.len() == 4 * num_peaks,
            flat.len() <= r@.len() <= len,
            r@ == flat + Seq::new((r@.len() - flat.len()) as nat, |i: int| ZERO),
        decreases len - r.len(),
    {
        r.push(ZERO);
        assert(r@ =~= flat + Seq::new((r@.len() - flat.len()) as nat, |i: int| ZERO));
    }
    r
}

} // verus!
