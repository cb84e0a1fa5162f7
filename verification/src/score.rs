//! Branchless scoring of trial groups.
//!
//! A 64-bit word holds 32 two-bit trial slots; a slot matches exactly when it
//! is `00`. The match count of a word is computed without branching: the low
//! bit of every slot is forced to `1` and the high bit becomes `1` unless the
//! slot was `00`, so the zero bits of the transformed word are in one-to-one
//! correspondence with the matching slots.

use vstd::prelude::*;

verus! {

/// Every odd-indexed bit clear, every even-indexed bit set: the low bit of
/// each of the 32 two-bit trial slots of a word.
pub const PAIR_LOW_BITS: u64 = 0x5555_5555_5555_5555;

/// The top 25 trial slots (50 bits) of the last word of a trial group are
/// forced to a non-matching pattern; only the low 14 bits stay live.
pub const LAST_WORD_MASK: u64 = 0xFFFF_FFFF_FFFF_C000;

/// The bits of the last word of a trial group that remain live: 7 slots.
pub const LAST_WORD_LIVE_BITS: u64 = 0x3FFF;

/// Number of words in one trial group.
pub const GROUP_WORDS: usize = 8;

/// Live trial slots per group: 7 words of 32 slots plus 7 slots of the
/// masked last word.
pub const GROUP_LIVE_SLOTS: u32 = 231;

/// The trial slot starting at (even) bit offset `j` of `v` is a match: both
/// of its bits are zero.
pub open spec fn pair_is_match(v: u64, j: u64) -> bool {
    (v >> j) & 3 == 0
}

/// Number of matching trial slots among the first `k` slots of `v`
/// (bit offsets 0, 2, ..., 2k - 2).
pub open spec fn match_count_upto(v: u64, k: int) -> int
    decreases k,
{
    if k <= 0 {
        0
    } else {
        match_count_upto(v, k - 1) + (if pair_is_match(v, ((2 * (k - 1)) as u64)) {
            1int
        } else {
            0int
        })
    }
}

/// Number of matching trial slots among all 32 slots of a word.
pub open spec fn word_score(v: u64) -> int {
    match_count_upto(v, 32)
}

/// Bit `j` of `x` is zero.
pub open spec fn bit_is_zero(x: u64, j: u64) -> bool {
    (x >> j) & 1 == 0
}

/// Number of zero bits among the low `n` bits of `x`.
pub open spec fn zero_count_upto(x: u64, n: int) -> int
    decreases n,
{
    if n <= 0 {
        0
    } else {
        zero_count_upto(x, n - 1) + (if bit_is_zero(x, ((n - 1) as u64)) {
            1int
        } else {
            0int
        })
    }
}

/// Relies on `u64::count_zeros` of std: it returns the number of zero bits
/// in the binary representation of its argument.
pub assume_specification[ u64::count_zeros ](x: u64) -> (r: u32)
    ensures
        r == zero_count_upto(x, 64),
;

/// The branchless transform: the low bit of every slot becomes `1`, and the
/// high bit of a slot stays `0` exactly when the slot was `00`.
pub open spec fn pair_collapse(v: u64) -> u64 {
    v | ((v & PAIR_LOW_BITS) << 1u64) | PAIR_LOW_BITS
}

/// At an even offset `j`, the collapsed word has bit `j` set, and bit
/// `j + 1` clear exactly when the slot at `j` was a match.
proof fn lemma_collapse_bits(v: u64, j: u64)
    requires
        j < 64,
        j & 1 == 0,
    ensures
        !bit_is_zero(pair_collapse(v), j),
        bit_is_zero(pair_collapse(v), (j + 1) as u64) <==> pair_is_match(v, j),
{
    assert(!bit_is_zero(pair_collapse(v), j) && (bit_is_zero(pair_collapse(v), (j + 1) as u64)
        <==> pair_is_match(v, j))) by (bit_vector)
        requires
            j < 64,
            j & 1 == 0,
    ;
}

/// The zero bits of the collapsed word count exactly the matching slots.
proof fn lemma_collapse_count(v: u64, k: int)
    requires
        0 <= k <= 32,
    ensures
        zero_count_upto(pair_collapse(v), 2 * k) == match_count_upto(v, k),
    decreases k,
{
    if k > 0 {
        lemma_collapse_count(v, k - 1);
        let j = (2 * (k - 1)) as u64;
        assert(j == 2 * (k - 1));
        assert(j & 1 == 0) by (bit_vector)
            requires
                j % 2 == 0,
        ;
        lemma_collapse_bits(v, j);
        assert(zero_count_upto(pair_collapse(v), 2 * k) == zero_count_upto(
            pair_collapse(v),
            2 * k - 1,
        ) + (if bit_is_zero(pair_collapse(v), ((2 * k - 1) as u64)) {
            1int
        } else {
            0int
        }));
        assert(zero_count_upto(pair_collapse(v), 2 * k - 1) == zero_count_upto(
            pair_collapse(v),
            2 * k - 2,
        ) + (if bit_is_zero(pair_collapse(v), ((2 * k - 2) as u64)) {
            1int
        } else {
            0int
        }));
        assert((j + 1) as u64 == (2 * k - 1) as u64);
    }
}

/// A word's match count lies between 0 and `k` over its first `k` slots.
pub proof fn lemma_match_count_bounds(v: u64, k: int)
    requires
        k >= 0,
    ensures
        0 <= match_count_upto(v, k) <= k,
    decreases k,
{
    if k > 0 {
        lemma_match_count_bounds(v, k - 1);
    }
}

/// Counts the matching trial slots of one word, branch-free.
///
/// The transform forces every non-`00` slot to `11` and every `00` slot to
/// `01`, so the zero bits of the result are exactly the matching slots.
pub fn word_match_count(v: u64) -> (r: u32)
    ensures
        r == word_score(v),
        r <= 32,
{
    let val: u64 = v | ((v & PAIR_LOW_BITS) << 1u64) | PAIR_LOW_BITS;
    proof {
        assert(val == pair_collapse(v));
        lemma_collapse_count(v, 32);
        lemma_match_count_bounds(v, 32);
    }
    val.count_zeros()
}

/// Masking invariant: two last words that agree on their 14 live bits score
/// identically once the mask is applied, whatever their masked-off slots
/// held.
pub proof fn lemma_mask_invariance(v: u64, w: u64)
    requires
        v & LAST_WORD_LIVE_BITS == w & LAST_WORD_LIVE_BITS,
    ensures
        word_score(v | LAST_WORD_MASK) == word_score(w | LAST_WORD_MASK),
{
    assert((v | LAST_WORD_MASK) == (w | LAST_WORD_MASK)) by (bit_vector)
        requires
            v & LAST_WORD_LIVE_BITS == w & LAST_WORD_LIVE_BITS,
    ;
}

/// A word whose 32 slots are all `00` scores exactly 32; the all-matching
/// word is the zero word.
pub proof fn lemma_word_score_all_matches()
    ensures
        word_score(0) == 32,
{
    lemma_zero_word_count(32);
}

/// Every slot of the zero word matches.
proof fn lemma_zero_word_count(k: int)
    requires
        0 <= k <= 32,
    ensures
        match_count_upto(0, k) == k,
    decreases k,
{
    if k > 0 {
        lemma_zero_word_count(k - 1);
        let j = (2 * (k - 1)) as u64;
        assert(pair_is_match(0, j)) by (bit_vector);
    }
}

/// A word with no matching slot at all scores exactly 0.
pub proof fn lemma_word_score_no_matches(v: u64)
    requires
        forall|j: u64| j < 64 && j & 1 == 0 ==> !#[trigger] pair_is_match(v, j),
    ensures
        word_score(v) == 0,
{
    lemma_no_match_count(v, 32);
}

/// Counting over any prefix of an all-non-matching word yields 0.
proof fn lemma_no_match_count(v: u64, k: int)
    requires
        0 <= k <= 32,
        forall|j: u64| j < 64 && j & 1 == 0 ==> !#[trigger] pair_is_match(v, j),
    ensures
        match_count_upto(v, k) == 0,
    decreases k,
{
    if k > 0 {
        lemma_no_match_count(v, k - 1);
        let j = (2 * (k - 1)) as u64;
        assert(j == 2 * (k - 1));
        assert(j & 1 == 0) by (bit_vector)
            requires
                j % 2 == 0,
        ;
    }
}

/// Every slot of a masked word above the live region is a non-match.
proof fn lemma_masked_pair(v: u64, j: u64)
    requires
        14 <= j < 64,
        j & 1 == 0,
    ensures
        !pair_is_match(v | LAST_WORD_MASK, j),
{
    assert(!pair_is_match(v | LAST_WORD_MASK, j)) by (bit_vector)
        requires
            14 <= j < 64 && j & 1 == 0,
    ;
}

/// Beyond its 7 live slots, a masked last word accumulates no matches.
proof fn lemma_masked_count(v: u64, k: int)
    requires
        7 <= k <= 32,
    ensures
        match_count_upto(v | LAST_WORD_MASK, k) == match_count_upto(v | LAST_WORD_MASK, 7),
    decreases k,
{
    if k > 7 {
        lemma_masked_count(v, k - 1);
        let j = (2 * (k - 1)) as u64;
        assert(j == 2 * (k - 1));
        assert(j & 1 == 0) by (bit_vector)
            requires
                j % 2 == 0,
        ;
        lemma_masked_pair(v, j);
    }
}

/// A masked last word contributes at most its 7 live slots.
pub proof fn lemma_masked_word_score_bounds(v: u64)
    ensures
        0 <= word_score(v | LAST_WORD_MASK) <= 7,
{
    lemma_masked_count(v, 32);
    lemma_match_count_bounds(v | LAST_WORD_MASK, 7);
}

/// Word `i` of a trial group as it is scored: the last word carries the
/// mask that deactivates its top 25 slots.
pub open spec fn group_word(ws: Seq<u64>, i: int) -> u64 {
    if i == 7 {
        ws[7] | LAST_WORD_MASK
    } else {
        ws[i]
    }
}

/// Sum of the match counts of the first `i` scored words of a group.
pub open spec fn group_score_upto(ws: Seq<u64>, i: int) -> int
    decreases i,
{
    if i <= 0 {
        0
    } else {
        group_score_upto(ws, i - 1) + word_score(group_word(ws, i - 1))
    }
}

/// Total match count of a trial group of 8 words, its last word masked:
/// the sum of the 8 per-word match counts.
pub open spec fn group_score(ws: Seq<u64>) -> int
    recommends
        ws.len() == 8,
{
    group_score_upto(ws, 8)
}

/// A partial group sum is bounded by 32 matches per full word.
proof fn lemma_group_score_upto_bounds(ws: Seq<u64>, i: int)
    requires
        0 <= i <= 7,
    ensures
        0 <= group_score_upto(ws, i) <= 32 * i,
    decreases i,
{
    if i > 0 {
        lemma_group_score_upto_bounds(ws, i - 1);
        lemma_match_count_bounds(ws[i - 1], 32);
    }
}

/// A trial group scores between 0 and its 231 live slots.
pub proof fn lemma_group_score_bounds(ws: Seq<u64>)
    ensures
        0 <= group_score(ws) <= GROUP_LIVE_SLOTS,
{
    lemma_group_score_upto_bounds(ws, 7);
    lemma_masked_word_score_bounds(ws[7]);
}

/// Counts the matching trials of one group of 8 words, deactivating the top
/// 25 slots of the last word before scoring it.
pub fn trial_group_score(words: &Vec<u64>) -> (r: u32)
    requires
        words.len() == GROUP_WORDS,
    ensures
        r == group_score(words@),
        r <= GROUP_LIVE_SLOTS,
{
    let mut total: u32 = 0;
    let mut i: usize = 0;
    while i < 8
        invariant
            0 <= i <= 8,
            words.len() == 8,
            total == group_score_upto(words@, i as int),
            i <= 7 ==> total <= 32 * i,
            i == 8 ==> total <= GROUP_LIVE_SLOTS,
        decreases 8 - i,
    {
        let w: u64 = if i == 7 {
            words[7] | LAST_WORD_MASK
        } else {
            words[i]
        };
        proof {
            assert(w == group_word(words@, i as int));
            if i < 7 {
                lemma_group_score_upto_bounds(words@, i as int);
            } else {
                lemma_group_score_upto_bounds(words@, 7);
                lemma_masked_word_score_bounds(words@[7]);
            }
        }
        let c = word_match_count(w);
        total = total + c;
        i = i + 1;
    }
    total
}

/// The best group score among the first `g` groups of a flat word sequence,
/// each group being 8 consecutive words; 0 when no group is considered.
pub open spec fn batch_best(ws: Seq<u64>, g: int) -> int
    decreases g,
{
    if g <= 0 {
        0
    } else {
        let prev = batch_best(ws, g - 1);
        let cur = group_score(ws.subrange(8 * (g - 1), 8 * g));
        if cur > prev {
            cur
        } else {
            prev
        }
    }
}

/// The best over any number of groups stays within a group's range.
pub proof fn lemma_batch_best_bounds(ws: Seq<u64>, g: int)
    requires
        g >= 0,
    ensures
        0 <= batch_best(ws, g) <= GROUP_LIVE_SLOTS,
    decreases g,
{
    if g > 0 {
        lemma_batch_best_bounds(ws, g - 1);
        lemma_group_score_bounds(ws.subrange(8 * (g - 1), 8 * g));
    }
}

/// A batch of a single group scores exactly as that group does.
pub proof fn lemma_single_group_batch(ws: Seq<u64>)
    requires
        ws.len() == 8,
    ensures
        batch_best(ws, 1) == group_score(ws),
{
    assert(ws.subrange(0, 8) =~= ws);
    lemma_group_score_bounds(ws);
    assert(batch_best(ws, 0) == 0);
    assert(batch_best(ws, 1) == if group_score(ws.subrange(0, 8)) > 0 {
        group_score(ws.subrange(0, 8))
    } else {
        0int
    });
}

/// Scores a whole batch: the words of `block_size` trial groups laid out
/// flat, 8 words per group; returns the best group score of the batch.
pub fn batch_score(words: &Vec<u64>, block_size: usize) -> (r: u32)
    requires
        block_size >= 1,
        words.len() == 8 * block_size,
    ensures
        r == batch_best(words@, block_size as int),
        r <= GROUP_LIVE_SLOTS,
{
    let mut best: u32 = 0;
    let mut g: usize = 0;
    while g < block_size
        invariant
            0 <= g <= block_size,
            words.len() == 8 * block_size,
            best == batch_best(words@, g as int),
            best <= GROUP_LIVE_SLOTS,
        decreases block_size - g,
    {
        let mut group: Vec<u64> = Vec::new();
        let mut j: usize = 0;
        while j < 8
            invariant
                0 <= j <= 8,
                g < block_size,
                words.len() == 8 * block_size,
                group@ =~= words@.subrange(8 * g as int, 8 * g + j),
            decreases 8 - j,
        {
            group.push(words[8 * g + j]);
            j = j + 1;
        }
        let score = trial_group_score(&group);
        proof {
            assert(group@ =~= words@.subrange(8 * (g as int), 8 * (g as int) + 8));
        }
        if score > best {
            best = score;
        }
        g = g + 1;
    }
    best
}

} // verus!
