//! Multisets of cards, represented as a count per card kind. Hands, public
//! collections, boosted collections, deck pools and submitted selections are
//! all values of this type; multiset equality and union are pointwise
//! equality and addition of the counts.

use vstd::prelude::*;

use crate::cards::{CardKind, NUM_KINDS};

verus! {

/// Sum of the first `n` counts of `s`.
pub open spec fn sum_prefix(s: Seq<u64>, n: int) -> int
    decreases n,
{
    if n <= 0 {
        0
    } else {
        sum_prefix(s, n - 1) + s[n - 1]
    }
}

/// Total number of cards in a count vector.
pub open spec fn sum_counts(s: Seq<u64>) -> int {
    sum_prefix(s, s.len() as int)
}

pub proof fn lemma_sum_prefix_nonneg(s: Seq<u64>, n: int)
    requires
        n <= s.len(),
    ensures
        sum_prefix(s, n) >= 0,
    decreases n,
{
    if n > 0 {
        lemma_sum_prefix_nonneg(s, n - 1);
    }
}

/// Every count contributes to every prefix sum that covers it.
pub proof fn lemma_sum_prefix_bound(s: Seq<u64>, i: int, n: int)
    requires
        0 <= i < n <= s.len(),
    ensures
        sum_prefix(s, n) >= sum_prefix(s, i + 1) >= s[i],
    decreases n,
{
    lemma_sum_prefix_nonneg(s, i);
    if n > i + 1 {
        lemma_sum_prefix_bound(s, i, n - 1);
    }
}

/// Changing the count at index `i` shifts every covering prefix sum by the
/// same difference.
pub proof fn lemma_sum_prefix_update(s: Seq<u64>, i: int, v: u64, n: int)
    requires
        0 <= i < s.len(),
        n <= s.len(),
    ensures
        sum_prefix(s.update(i, v), n)
            == if i < n { sum_prefix(s, n) - s[i] + v } else { sum_prefix(s, n) },
    decreases n,
{
    if n > 0 {
        lemma_sum_prefix_update(s, i, v, n - 1);
    }
}

pub proof fn lemma_sum_update(s: Seq<u64>, i: int, v: u64)
    requires
        0 <= i < s.len(),
    ensures
        sum_counts(s.update(i, v)) == sum_counts(s) - s[i] + v,
{
    lemma_sum_prefix_update(s, i, v, s.len() as int);
}

/// A total of zero means every count is zero.
pub proof fn lemma_sum_zero(s: Seq<u64>)
    requires
        sum_counts(s) == 0,
    ensures
        forall|i: int| 0 <= i < s.len() ==> s[i] == 0,
{
    assert forall|i: int| 0 <= i < s.len() implies s[i] == 0 by {
        lemma_sum_prefix_bound(s, i, s.len() as int);
        lemma_sum_prefix_sub_nonneg(s, i + 1, s.len() as int);
    }
}

/// Prefix sums are monotone in the prefix length.
pub proof fn lemma_sum_prefix_sub_nonneg(s: Seq<u64>, m: int, n: int)
    requires
        0 <= m <= n <= s.len(),
    ensures
        sum_prefix(s, m) <= sum_prefix(s, n),
    decreases n,
{
    lemma_sum_prefix_nonneg(s, m);
    if n > m {
        lemma_sum_prefix_sub_nonneg(s, m, n - 1);
    }
}

/// Upper bound assumed of individual card counts wherever the engine's
/// arithmetic must fit its integer types; generous next to any real deck.
pub const COUNT_LIMIT: u64 = 0x1000_0000;

/// Every count of `s` is below `COUNT_LIMIT`.
pub open spec fn counts_bounded(s: Seq<u64>) -> bool {
    forall|i: int| 0 <= i < s.len() ==> s[i] <= COUNT_LIMIT
}

/// A vector of bounded counts has a proportionally bounded sum.
pub proof fn lemma_sum_bounded(s: Seq<u64>, n: int)
    requires
        0 <= n <= s.len(),
        counts_bounded(s),
    ensures
        sum_prefix(s, n) <= n * COUNT_LIMIT,
    decreases n,
{
    if n > 0 {
        lemma_sum_bounded(s, n - 1);
    }
}

/// Pointwise sum of two count vectors: the multiset union.
pub open spec fn add_counts(a: Seq<u64>, b: Seq<u64>) -> Seq<u64> {
    Seq::new(a.len(), |i: int| (a[i] + b[i]) as u64)
}

/// The union's prefix sums are the sums of the prefix sums, as long as no
/// count overflows.
pub proof fn lemma_sum_prefix_add(a: Seq<u64>, b: Seq<u64>, n: int)
    requires
        b.len() == a.len(),
        n <= a.len(),
        forall|i: int| 0 <= i < a.len() ==> a[i] + b[i] <= u64::MAX,
    ensures
        sum_prefix(add_counts(a, b), n) == sum_prefix(a, n) + sum_prefix(b, n),
    decreases n,
{
    if n > 0 {
        lemma_sum_prefix_add(a, b, n - 1);
    }
}

/// Total number of cards in the first `k` of a sequence of count vectors.
pub open spec fn hands_sum(hands: Seq<Seq<u64>>, k: int) -> int
    decreases k,
{
    if k <= 0 {
        0
    } else {
        hands_sum(hands, k - 1) + sum_counts(hands[k - 1])
    }
}

/// Replacing one count vector shifts the total by that vector's difference.
pub proof fn lemma_hands_sum_update(hands: Seq<Seq<u64>>, i: int, v: Seq<u64>, k: int)
    requires
        0 <= i < hands.len(),
        k <= hands.len(),
    ensures
        hands_sum(hands.update(i, v), k) == if i < k {
            hands_sum(hands, k) - sum_counts(hands[i]) + sum_counts(v)
        } else {
            hands_sum(hands, k)
        },
    decreases k,
{
    if k > 0 {
        lemma_hands_sum_update(hands, i, v, k - 1);
    }
}

/// The total in one count vector never exceeds the total over all of them.
pub proof fn lemma_hands_sum_element(hands: Seq<Seq<u64>>, i: int, k: int)
    requires
        0 <= i < k <= hands.len(),
        forall|q: int| 0 <= q < hands.len() ==> sum_counts(#[trigger] hands[q]) >= 0,
    ensures
        sum_counts(hands[i]) <= hands_sum(hands, k),
    decreases k,
{
    if k - 1 > i {
        lemma_hands_sum_element(hands, i, k - 1);
    } else {
        lemma_hands_sum_nonneg(hands, k - 1);
    }
}

pub proof fn lemma_hands_sum_nonneg(hands: Seq<Seq<u64>>, k: int)
    requires
        0 <= k <= hands.len(),
        forall|q: int| 0 <= q < hands.len() ==> sum_counts(#[trigger] hands[q]) >= 0,
    ensures
        hands_sum(hands, k) >= 0,
    decreases k,
{
    if k > 0 {
        lemma_hands_sum_nonneg(hands, k - 1);
    }
}

/// Two pointwise-equal prefixes of count vectors have equal totals.
pub proof fn lemma_hands_sum_congruence(a: Seq<Seq<u64>>, b: Seq<Seq<u64>>, k: int)
    requires
        k <= a.len(),
        k <= b.len(),
        forall|q: int| 0 <= q < k ==> a[q] == b[q],
    ensures
        hands_sum(a, k) == hands_sum(b, k),
    decreases k,
{
    if k > 0 {
        lemma_hands_sum_congruence(a, b, k - 1);
    }
}

/// A multiset of cards as one count per catalog kind, indexed by
/// `CardKind::index_spec`.
pub struct CardCounts {
    pub counts: Vec<u64>,
}

impl CardCounts {
    /// A count vector always holds exactly one count per catalog kind.
    pub open spec fn wf(self) -> bool {
        self.counts@.len() == NUM_KINDS
    }

    pub open spec fn view(self) -> Seq<u64> {
        self.counts@
    }

    pub open spec fn count_spec(self, kind: CardKind) -> int {
        self@[kind.index_spec()] as int
    }

    /// Total number of cards held.
    pub open spec fn total_spec(self) -> int {
        sum_counts(self@)
    }

    /// The empty multiset.
    pub fn new() -> (r: CardCounts)
        ensures
            r.wf(),
            forall|i: int| 0 <= i < NUM_KINDS ==> r@[i] == 0,
            r.total_spec() == 0,
    {
        let mut counts: Vec<u64> = Vec::new();
        let mut i: usize = 0;
        while i < NUM_KINDS
            invariant
                i <= NUM_KINDS,
                counts@.len() == i,
                forall|j: int| 0 <= j < i ==> counts@[j] == 0,
            decreases NUM_KINDS - i,
        {
            counts.push(0);
            i += 1;
        }
        let r = CardCounts { counts };
        proof {
            lemma_sum_prefix_zero(r@, NUM_KINDS as int);
        }
        r
    }

    /// How many cards of `kind` are held.
    pub fn get(&self, kind: CardKind) -> (r: u64)
        requires
            self.wf(),
        ensures
            r == self.count_spec(kind),
    {
        self.counts[kind.index()]
    }

    pub fn get_index(&self, i: usize) -> (r: u64)
        requires
            self.wf(),
            i < NUM_KINDS,
        ensures
            r == self@[i as int],
    {
        self.counts[i]
    }

    /// Add `n` cards of `kind`.
    pub fn add(&mut self, kind: CardKind, n: u64)
        requires
            old(self).wf(),
            old(self).count_spec(kind) + n <= u64::MAX,
        ensures
            final(self).wf(),
            final(self)@ == old(self)@.update(kind.index_spec(), (old(self).count_spec(kind) + n) as u64),
            final(self).total_spec() == old(self).total_spec() + n,
    {
        let i = kind.index();
        let c = self.counts[i];
        self.counts.set(i, c + n);
        proof {
            lemma_sum_update(old(self)@, i as int, (c + n) as u64);
        }
    }

    /// Remove `n` cards of `kind`; the kind must hold at least `n`.
    pub fn sub(&mut self, kind: CardKind, n: u64)
        requires
            old(self).wf(),
            n <= old(self).count_spec(kind),
        ensures
            final(self).wf(),
            final(self)@ == old(self)@.update(kind.index_spec(), (old(self).count_spec(kind) - n) as u64),
            final(self).total_spec() == old(self).total_spec() - n,
    {
        let i = kind.index();
        let c = self.counts[i];
        self.counts.set(i, c - n);
        proof {
            lemma_sum_update(old(self)@, i as int, (c - n) as u64);
        }
    }

    pub fn set_index(&mut self, i: usize, v: u64)
        requires
            old(self).wf(),
            i < NUM_KINDS,
        ensures
            final(self).wf(),
            final(self)@ == old(self)@.update(i as int, v),
    {
        self.counts.set(i, v);
    }

    /// Total number of cards held.
    pub fn total(&self) -> (r: u64)
        requires
            self.wf(),
            self.total_spec() <= u64::MAX,
        ensures
            r == self.total_spec(),
    {
        let mut acc: u64 = 0;
        let mut i: usize = 0;
        while i < NUM_KINDS
            invariant
                self.wf(),
                self.total_spec() <= u64::MAX,
                i <= NUM_KINDS,
                acc == sum_prefix(self@, i as int),
            decreases NUM_KINDS - i,
        {
            proof {
                lemma_sum_prefix_nonneg(self@, i as int);
                lemma_sum_prefix_sub_nonneg(self@, i + 1, NUM_KINDS as int);
                lemma_sum_prefix_nonneg(self@, i + 1 as int);
            }
            acc = acc + self.counts[i];
            i += 1;
        }
        acc
    }

    /// Whether no card is held.
    pub fn is_empty(&self) -> (r: bool)
        requires
            self.wf(),
        ensures
            r <==> self.total_spec() == 0,
    {
        let mut i: usize = 0;
        let mut all_zero = true;
        while i < NUM_KINDS
            invariant
                self.wf(),
                i <= NUM_KINDS,
                all_zero <==> sum_prefix(self@, i as int) == 0,
            decreases NUM_KINDS - i,
        {
            proof {
                lemma_sum_prefix_nonneg(self@, i as int);
            }
            if self.counts[i] > 0 {
                all_zero = false;
            }
            i += 1;
        }
        all_zero
    }

    /// Multiset equality.
    pub fn equals(&self, other: &CardCounts) -> (r: bool)
        requires
            self.wf(),
            other.wf(),
        ensures
            r <==> self@ =~= other@,
    {
        let mut i: usize = 0;
        while i < NUM_KINDS
            invariant
                self.wf(),
                other.wf(),
                i <= NUM_KINDS,
                forall|j: int| 0 <= j < i ==> self@[j] == other@[j],
            decreases NUM_KINDS - i,
        {
            if self.counts[i] != other.counts[i] {
                return false;
            }
            i += 1;
        }
        true
    }
}

impl Clone for CardCounts {
    fn clone(&self) -> (r: Self)
        ensures
            r@ == self@,
    {
        CardCounts { counts: self.counts.clone() }
    }
}

/// A vector of zero counts sums to zero.
pub proof fn lemma_sum_prefix_zero(s: Seq<u64>, n: int)
    requires
        n <= s.len(),
        forall|i: int| 0 <= i < n ==> s[i] == 0,
    ensures
        sum_prefix(s, n) == 0,
    decreases n,
{
    if n > 0 {
        lemma_sum_prefix_zero(s, n - 1);
    }
}

} // verus!
