//! The seeded deck: a multiset of undrawn cards with weighted random draw and
//! distribution-preserving auto-reshuffle. A draw picks a uniformly random
//! position below the running total and walks the kinds in catalog order,
//! accumulating counts, so each kind is drawn with probability proportional
//! to its remaining count; the drawn kind is fully determined by the random
//! pick, which `chacha_pick` in turn determines from the seed and history.

use vstd::prelude::*;

use crate::cards::{CardKind, NUM_KINDS};
use crate::counts::{
    add_counts, lemma_sum_prefix_bound, lemma_sum_prefix_nonneg, lemma_sum_prefix_sub_nonneg,
    lemma_sum_update, sum_counts, sum_prefix, CardCounts,
};
use crate::rng::{chacha_pick, GameRng};

verus! {

/// The index of the kind whose cumulative count range contains position `p`,
/// scanning from index `j`.
pub open spec fn pick_index_from(counts: Seq<u64>, p: int, j: int) -> int
    decreases counts.len() - j
    when 0 <= j <= counts.len()
{
    if j >= counts.len() {
        j
    } else if p < counts[j] {
        j
    } else {
        pick_index_from(counts, p - counts[j], j + 1)
    }
}

/// The index of the kind drawn for random position `p` of the pool `counts`.
pub open spec fn pick_index(counts: Seq<u64>, p: int) -> int {
    pick_index_from(counts, p, 0)
}

/// A position below the remaining total always lands on a kind with a
/// positive count.
pub proof fn lemma_pick_index_from_in_range(counts: Seq<u64>, p: int, j: int)
    requires
        0 <= j <= counts.len(),
        0 <= p,
        p < sum_counts(counts) - sum_prefix(counts, j),
    ensures
        j <= pick_index_from(counts, p, j) < counts.len(),
        counts[pick_index_from(counts, p, j)] > 0,
    decreases counts.len() - j,
{
    if j >= counts.len() {
        assert(sum_counts(counts) == sum_prefix(counts, j));
    } else if p < counts[j] {
    } else {
        lemma_pick_index_from_in_range(counts, p - counts[j], j + 1);
    }
}

pub proof fn lemma_pick_index_in_range(counts: Seq<u64>, p: int)
    requires
        0 <= p < sum_counts(counts),
    ensures
        0 <= pick_index(counts, p) < counts.len(),
        counts[pick_index(counts, p)] > 0,
{
    lemma_pick_index_from_in_range(counts, p, 0);
}

/// What one draw from the pool `counts` yields and leaves behind, for a
/// source whose state is `(seed, hist)`. Meaningful only when the pool is
/// not empty.
pub open spec fn draw_once_spec(counts: Seq<u64>, seed: u64, hist: Seq<u64>) -> (Seq<u64>, Seq<
    u64,
>, CardKind) {
    let total = sum_counts(counts) as u64;
    let p = chacha_pick(seed, hist, total) as int % (total as int);
    let i = pick_index(counts, p);
    (counts.update(i, (counts[i] - 1) as u64), hist.push(total), CardKind::from_index_spec(i))
}

/// What `Deck::draw` yields: a draw from the pool, after restoring the
/// initial distribution if the pool is exhausted; no card when the pool is
/// exhausted and no initial distribution was ever set.
pub open spec fn draw_spec(cards: Seq<u64>, initial: Seq<u64>, seed: u64, hist: Seq<u64>) -> (
    Seq<u64>,
    Seq<u64>,
    Option<CardKind>,
) {
    if sum_counts(cards) == 0 {
        if sum_counts(initial) == 0 {
            (cards, hist, None::<CardKind>)
        } else {
            let (c, h, k) = draw_once_spec(initial, seed, hist);
            (c, h, Some(k))
        }
    } else {
        let (c, h, k) = draw_once_spec(cards, seed, hist);
        (c, h, Some(k))
    }
}

/// A mapping from card kind to remaining count, plus the original
/// distribution it was seeded with, restored in full on auto-reshuffle.
pub struct Deck {
    pub cards: CardCounts,
    pub total: u64,
    pub initial: CardCounts,
}

impl Deck {
    /// The running total always equals the sum of the per-kind counts, and
    /// the recorded initial distribution always fits the total's type.
    pub open spec fn wf(self) -> bool {
        &&& self.cards.wf()
        &&& self.initial.wf()
        &&& self.total == sum_counts(self.cards@)
        &&& sum_counts(self.initial@) <= u64::MAX
    }

    /// An empty deck with no initial distribution.
    pub fn new() -> (r: Deck)
        ensures
            r.wf(),
            forall|i: int| 0 <= i < NUM_KINDS ==> r.cards@[i] == 0,
            forall|i: int| 0 <= i < NUM_KINDS ==> r.initial@[i] == 0,
            r.total == 0,
    {
        Deck { cards: CardCounts::new(), total: 0, initial: CardCounts::new() }
    }

    /// A deck seeded with `cards`, recorded as its own initial distribution.
    pub fn with_cards(cards: CardCounts) -> (r: Deck)
        requires
            cards.wf(),
            cards.total_spec() <= u64::MAX,
        ensures
            r.wf(),
            r.cards@ == cards@,
            r.initial@ == cards@,
            r.total == cards.total_spec(),
    {
        let total = cards.total();
        let initial = cards.clone();
        Deck { cards, total, initial }
    }

    /// Add `count` cards of `kind` to the pool.
    pub fn add(&mut self, kind: CardKind, count: u64)
        requires
            old(self).wf(),
            old(self).total + count <= u64::MAX,
        ensures
            final(self).wf(),
            final(self).cards@ == old(self).cards@.update(
                kind.index_spec(),
                (old(self).cards@[kind.index_spec()] + count) as u64,
            ),
            final(self).total == old(self).total + count,
            final(self).initial@ == old(self).initial@,
    {
        proof {
            lemma_sum_prefix_bound(self.cards@, kind.index_spec(), NUM_KINDS as int);
        }
        self.cards.add(kind, count);
        self.total = self.total + count;
    }

    /// Record the distribution to restore on auto-reshuffle.
    pub fn set_initial_distribution(&mut self, distribution: CardCounts)
        requires
            old(self).wf(),
            distribution.wf(),
            distribution.total_spec() <= u64::MAX,
        ensures
            final(self).wf(),
            final(self).cards@ == old(self).cards@,
            final(self).total == old(self).total,
            final(self).initial@ == distribution@,
    {
        self.initial = distribution;
    }

    /// Number of cards left in the pool.
    pub fn size(&self) -> (r: u64)
        requires
            self.wf(),
        ensures
            r == self.total,
            r == sum_counts(self.cards@),
    {
        self.total
    }

    /// Return a batch of cards to the pool, one unit at a time.
    pub fn extend(&mut self, other: &CardCounts)
        requires
            old(self).wf(),
            other.wf(),
            old(self).total + other.total_spec() <= u64::MAX,
        ensures
            final(self).wf(),
            final(self).cards@ =~= add_counts(old(self).cards@, other@),
            final(self).total == old(self).total + other.total_spec(),
            final(self).initial@ == old(self).initial@,
    {
        let ghost a = self.cards@;
        let ghost t0 = self.total;
        let mut j: usize = 0;
        while j < NUM_KINDS
            invariant
                self.cards.wf(),
                self.initial.wf(),
                sum_counts(self.initial@) <= u64::MAX,
                other.wf(),
                j <= NUM_KINDS,
                a.len() == NUM_KINDS,
                t0 == sum_counts(a),
                t0 + other.total_spec() <= u64::MAX,
                self.total == t0 + sum_prefix(other@, j as int),
                self.total == sum_counts(self.cards@),
                forall|m: int| 0 <= m < j ==> self.cards@[m] == a[m] + other@[m],
                forall|m: int| j <= m < NUM_KINDS ==> self.cards@[m] == a[m],
                self.initial@ == old(self).initial@,
            decreases NUM_KINDS - j,
        {
            proof {
                lemma_sum_prefix_bound(other@, j as int, NUM_KINDS as int);
                lemma_sum_prefix_bound(a, j as int, NUM_KINDS as int);
                lemma_sum_prefix_nonneg(other@, j as int);
                lemma_sum_prefix_sub_nonneg(other@, j + 1, NUM_KINDS as int);
            }
            let c = other.get_index(j);
            let mine = self.cards.get_index(j);
            let ghost before = self.cards@;
            self.cards.set_index(j, mine + c);
            proof {
                lemma_sum_update(before, j as int, (mine + c) as u64);
            }
            self.total = self.total + c;
            j += 1;
        }
    }

    /// Draw one card: weighted by remaining count, auto-reshuffling an
    /// exhausted pool back to the initial distribution when one was set.
    pub fn draw(&mut self, rng: &mut GameRng) -> (r: Option<CardKind>)
        requires
            old(self).wf(),
        ensures
            final(self).wf(),
            final(self).initial@ == old(self).initial@,
            final(rng).seed_spec() == old(rng).seed_spec(),
            ({
                let (c, h, k) = draw_spec(
                    old(self).cards@,
                    old(self).initial@,
                    old(rng).seed_spec(),
                    old(rng).history_spec(),
                );
                final(self).cards@ == c && final(rng).history_spec() == h && r == k
            }),
    {
        if self.total == 0 {
            let initial_total = self.initial.total();
            if initial_total == 0 {
                return None;
            }
            self.cards = self.initial.clone();
            self.total = initial_total;
        }
        let ghost counts0 = self.cards@;
        let ghost pick_total = self.total;
        let p0 = rng.pick(self.total);
        proof {
            assert(p0 as int % (pick_total as int) == p0 as int) by (nonlinear_arith)
                requires
                    0 <= p0 < pick_total,
            ;
        }
        let mut p = p0;
        let mut j: usize = 0;
        while j < NUM_KINDS
            invariant
                self.cards.wf(),
                self.initial.wf(),
                sum_counts(self.initial@) <= u64::MAX,
                self.cards@ == counts0,
                self.initial@ == old(self).initial@,
                self.total == pick_total,
                pick_total == sum_counts(counts0),
                ({
                    if sum_counts(old(self).cards@) == 0 {
                        counts0 == old(self).initial@ && sum_counts(old(self).initial@) > 0
                    } else {
                        counts0 == old(self).cards@
                    }
                }),
                rng.seed_spec() == old(rng).seed_spec(),
                rng.history_spec() == old(rng).history_spec().push(pick_total),
                p0 == chacha_pick(old(rng).seed_spec(), old(rng).history_spec(), pick_total),
                j <= NUM_KINDS,
                p0 < pick_total,
                p0 as int % (pick_total as int) == p0 as int,
                p == p0 - sum_prefix(counts0, j as int),
                p >= 0,
                pick_index(counts0, p0 as int) == pick_index_from(counts0, p as int, j as int),
            decreases NUM_KINDS - j,
        {
            let c = self.cards.get_index(j);
            if p < c {
                self.cards.set_index(j, c - 1);
                proof {
                    assert(pick_index_from(counts0, p as int, j as int) == j);
                    lemma_sum_update(counts0, j as int, (c - 1) as u64);
                }
                self.total = self.total - 1;
                return Some(CardKind::from_index(j));
            }
            p = p - c;
            j += 1;
        }
        proof {
            assert(p == p0 - sum_counts(counts0));
            assert(false);
        }
        None
    }
}

} // verus!
