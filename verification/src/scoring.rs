//! The scoring engine: a pure function over the final public state producing
//! a per-player itemized breakdown. All points are in tenths of a point, so
//! the even splits of the majority/minority award (6 points over up to 6
//! tied players) are exact integers and category totals add without rounding.

use vstd::prelude::*;

use crate::cards::{CardKind, NUM_KINDS};
use crate::counts::{counts_bounded, COUNT_LIMIT};
use crate::player::Player;

verus! {

/// One line item of a breakdown: a category label and its points, in tenths
/// of a point.
pub struct CategoryScore {
    pub category: String,
    pub points_tenths: i64,
}

/// A set bonus line item, kept apart from the per-category lines.
pub struct SetBonus {
    pub description: String,
    pub points_tenths: i64,
}

/// Complete score breakdown for a player.
pub struct ScoreBreakdown {
    pub category_scores: Vec<CategoryScore>,
    pub set_bonuses: Vec<SetBonus>,
    pub total_tenths: i64,
}

impl ScoreBreakdown {
    /// An empty breakdown.
    pub fn new() -> (r: ScoreBreakdown)
        ensures
            r.category_scores@.len() == 0,
            r.set_bonuses@.len() == 0,
            r.total_tenths == 0,
    {
        ScoreBreakdown { category_scores: Vec::new(), set_bonuses: Vec::new(), total_tenths: 0 }
    }
}

/// The labels and points of a sequence of line items.
pub open spec fn entry_views(s: Seq<CategoryScore>) -> Seq<(Seq<char>, int)> {
    Seq::new(s.len(), |i: int| (s[i].category@, s[i].points_tenths as int))
}

/// Sum of the points of a sequence of line items.
pub open spec fn entries_total(es: Seq<(Seq<char>, int)>) -> int
    decreases es.len(),
{
    if es.len() == 0 {
        0
    } else {
        entries_total(es.drop_last()) + es.last().1
    }
}

pub proof fn lemma_entries_total_push(es: Seq<(Seq<char>, int)>, e: (Seq<char>, int))
    ensures
        entries_total(es.push(e)) == entries_total(es) + e.1,
{
    assert(es.push(e).drop_last() =~= es);
}

pub proof fn lemma_entries_total_single(e: (Seq<char>, int))
    ensures
        entries_total(seq![e]) == e.1,
{
    assert(seq![e].len() == 1);
    assert(seq![e].last() == e);
    assert(seq![e].drop_last() =~= Seq::<(Seq<char>, int)>::empty());
    assert(entries_total(Seq::<(Seq<char>, int)>::empty()) == 0);
}

/// A per-card score below 10 times a bounded count times a multiplier below
/// 30 stays far below the line-item type's range.
pub proof fn lemma_points_bounds(s: int, c: int, m: int)
    requires
        0 <= s <= 9,
        0 <= c <= 0x1000_0000,
        0 <= m <= 10,
    ensures
        0 <= s * c <= 9 * 0x1000_0000,
        0 <= s * c * m <= 90 * 0x1000_0000,
{
    assert(0 <= s * c <= 9 * 0x1000_0000 && 0 <= s * c * m <= 90 * 0x1000_0000)
        by (nonlinear_arith)
        requires
            0 <= s <= 9,
            0 <= c <= 0x1000_0000,
            0 <= m <= 10,
    {}
}

pub proof fn lemma_entries_total_concat(a: Seq<(Seq<char>, int)>, b: Seq<(Seq<char>, int)>)
    ensures
        entries_total(a + b) == entries_total(a) + entries_total(b),
    decreases b.len(),
{
    if b.len() == 0 {
        assert(a + b =~= a);
    } else {
        lemma_entries_total_concat(a, b.drop_last());
        assert((a + b).drop_last() =~= a + b.drop_last());
        assert((a + b).last() == b.last());
    }
}

/// Points for a base category: base score times held count, in tenths.
pub open spec fn base_points_tenths(k: CardKind, n: int) -> int {
    k.score_spec() * n * 10
}

/// The base-category line items for a player's public cards, over the kinds
/// with index below `i`, in catalog order: one line per held kind other than
/// the quantity-tiered one.
pub open spec fn base_entries(pub_cards: Seq<u64>, i: int) -> Seq<(Seq<char>, int)>
    decreases i,
{
    if i <= 0 {
        Seq::empty()
    } else {
        let k = CardKind::from_index_spec(i - 1);
        let rest = base_entries(pub_cards, i - 1);
        if pub_cards[i - 1] > 0 && k != CardKind::MochiIceCream {
            rest.push((k.name_spec(), base_points_tenths(k, pub_cards[i - 1] as int)))
        } else {
            rest
        }
    }
}

/// Points for a boosted holding: three times the base score per card.
pub open spec fn boosted_points_tenths(k: CardKind, n: int) -> int {
    k.score_spec() * 3 * n * 10
}

/// The boosted line items, over the kinds with index below `i`.
pub open spec fn boosted_entries(boosted: Seq<u64>, i: int) -> Seq<(Seq<char>, int)>
    decreases i,
{
    if i <= 0 {
        Seq::empty()
    } else {
        let k = CardKind::from_index_spec(i - 1);
        let rest = boosted_entries(boosted, i - 1);
        if boosted[i - 1] > 0 {
            rest.push((k.boosted_name_spec(), boosted_points_tenths(k, boosted[i - 1] as int)))
        } else {
            rest
        }
    }
}

/// The quantity tier of the dessert card, in tenths: 1, 3, 6, 10 points for
/// one to four cards, 15 from five up.
pub open spec fn mochi_tier_tenths(n: int) -> int {
    if n <= 0 {
        0
    } else if n == 1 {
        10
    } else if n == 2 {
        30
    } else if n == 3 {
        60
    } else if n == 4 {
        100
    } else {
        150
    }
}

/// The dessert line: present exactly when at least one is held.
pub open spec fn mochi_entries(pub_cards: Seq<u64>) -> Seq<(Seq<char>, int)> {
    let n = pub_cards[CardKind::MochiIceCream.index_spec()] as int;
    if n > 0 {
        seq![(CardKind::MochiIceCream.name_spec(), mochi_tier_tenths(n))]
    } else {
        Seq::empty()
    }
}

/// Maximum of the first `n` counts (`n` must be at least 1).
pub open spec fn seq_max(s: Seq<u64>, n: int) -> int
    decreases n,
{
    if n <= 1 {
        s[0] as int
    } else if s[n - 1] > seq_max(s, n - 1) {
        s[n - 1] as int
    } else {
        seq_max(s, n - 1)
    }
}

/// Minimum of the first `n` counts (`n` must be at least 1).
pub open spec fn seq_min(s: Seq<u64>, n: int) -> int
    decreases n,
{
    if n <= 1 {
        s[0] as int
    } else if s[n - 1] < seq_min(s, n - 1) {
        s[n - 1] as int
    } else {
        seq_min(s, n - 1)
    }
}

/// How many of the first `n` counts equal `v`.
pub open spec fn count_eq(s: Seq<u64>, n: int, v: int) -> int
    decreases n,
{
    if n <= 0 {
        0
    } else {
        count_eq(s, n - 1, v) + if s[n - 1] == v {
            1int
        } else {
            0int
        }
    }
}

/// Each player's public count of the majority/minority card.
pub open spec fn tapioca_counts(ps: Seq<Player>) -> Seq<u64> {
    Seq::new(ps.len(), |i: int| ps[i].public_cards@[CardKind::TapiocaPearl.index_spec()])
}

/// The majority/minority award for one player, in tenths: +6 points split
/// evenly over the players tied for most (only when the most is positive),
/// and -6 points split evenly over the players tied for fewest (even at
/// zero). Both apply when everyone is tied.
pub open spec fn tapioca_points_tenths(ps: Seq<Player>, pid: int) -> int {
    let cs = tapioca_counts(ps);
    let n = cs.len() as int;
    let mx = seq_max(cs, n);
    let mn = seq_min(cs, n);
    let maxt = count_eq(cs, n, mx);
    let mint = count_eq(cs, n, mn);
    (if cs[pid] == mx && mx > 0 {
        60int / maxt
    } else {
        0
    }) - (if cs[pid] == mn {
        60int / mint
    } else {
        0
    })
}

/// The majority/minority award of the first `k` players, added up.
pub open spec fn tapioca_sum(ps: Seq<Player>, k: int) -> int
    decreases k,
{
    if k <= 0 {
        0
    } else {
        tapioca_sum(ps, k - 1) + tapioca_points_tenths(ps, k - 1)
    }
}

proof fn lemma_mul_plus_one(a: int, q: int)
    ensures
        (a + 1) * q == a * q + q,
{
    assert((a + 1) * q == a * q + q) by (nonlinear_arith);
}

proof fn lemma_tapioca_sum_partial(ps: Seq<Player>, k: int)
    requires
        1 <= ps.len(),
        0 <= k <= ps.len(),
    ensures
        tapioca_sum(ps, k) == ({
            let cs = tapioca_counts(ps);
            let n = cs.len() as int;
            let mx = seq_max(cs, n);
            let mn = seq_min(cs, n);
            let plus = if mx > 0 {
                60int / count_eq(cs, n, mx)
            } else {
                0int
            };
            let minus = 60int / count_eq(cs, n, mn);
            count_eq(cs, k, mx) * plus - count_eq(cs, k, mn) * minus
        }),
    decreases k,
{
    let cs = tapioca_counts(ps);
    let n = cs.len() as int;
    let mx = seq_max(cs, n);
    let mn = seq_min(cs, n);
    let plus = if mx > 0 {
        60int / count_eq(cs, n, mx)
    } else {
        0int
    };
    let minus = 60int / count_eq(cs, n, mn);
    if k > 0 {
        lemma_tapioca_sum_partial(ps, k - 1);
        lemma_seq_max_attained(cs, n);
        lemma_seq_min_attained(cs, n);
        if cs[k - 1] == mx {
            lemma_mul_plus_one(count_eq(cs, k - 1, mx), plus);
        }
        if cs[k - 1] == mn {
            lemma_mul_plus_one(count_eq(cs, k - 1, mn), minus);
        }
        if mx == 0 {
            assert(!(cs[k - 1] == mx && mx > 0));
        }
    }
}

proof fn lemma_div60_exact(t: int)
    requires
        1 <= t <= 6,
    ensures
        t * (60int / t) == 60,
{
    if t == 1 {
        assert(60int / 1 == 60);
    } else if t == 2 {
        assert(60int / 2 == 30);
    } else if t == 3 {
        assert(60int / 3 == 20);
    } else if t == 4 {
        assert(60int / 4 == 15);
    } else if t == 5 {
        assert(60int / 5 == 12);
    } else {
        assert(60int / 6 == 10);
    }
}

/// The majority/minority award is zero-sum: whenever at least one player
/// publicly holds the card, the +6 points split over the players tied for
/// most cancel against the -6 points split over the players tied for fewest,
/// over any table of a supported size.
pub proof fn lemma_tapioca_split_sums_to_zero(ps: Seq<Player>)
    requires
        1 <= ps.len() <= 6,
        seq_max(tapioca_counts(ps), ps.len() as int) > 0,
    ensures
        tapioca_sum(ps, ps.len() as int) == 0,
{
    let cs = tapioca_counts(ps);
    let n = cs.len() as int;
    let mx = seq_max(cs, n);
    let mn = seq_min(cs, n);
    let maxt = count_eq(cs, n, mx);
    let mint = count_eq(cs, n, mn);
    lemma_seq_max_attained(cs, n);
    lemma_seq_min_attained(cs, n);
    lemma_count_eq_bounds(cs, n, mx);
    lemma_count_eq_bounds(cs, n, mn);
    lemma_tapioca_sum_partial(ps, n);
    lemma_div60_exact(maxt);
    lemma_div60_exact(mint);
}

/// The majority/minority line: present exactly when its net points are not
/// zero.
pub open spec fn tapioca_entries(ps: Seq<Player>, pid: int) -> Seq<(Seq<char>, int)> {
    let t = tapioca_points_tenths(ps, pid);
    if t != 0 {
        seq![("Tapioca Pearl Majority/Minority"@, t)]
    } else {
        Seq::empty()
    }
}

/// Larger-first ordering of a pair.
pub open spec fn pair_sort(x: int, y: int) -> (int, int) {
    if x >= y {
        (x, y)
    } else {
        (y, x)
    }
}

/// The number of tea sets formed by the four staple kinds: with their counts
/// sorted in descending order, `min(first, second, third + fourth)`.
pub open spec fn teaset_sets(a: int, b: int, c: int, d: int) -> int {
    let (a1, b1) = pair_sort(a, b);
    let (c1, d1) = pair_sort(c, d);
    let (a2, c2) = pair_sort(a1, c1);
    let (b2, d2) = pair_sort(b1, d1);
    let (b3, c3) = pair_sort(b2, c2);
    let inner = if b3 <= c3 + d2 {
        b3
    } else {
        c3 + d2
    };
    if a2 <= inner {
        a2
    } else {
        inner
    }
}

/// The tea-set count of a player's public cards.
pub open spec fn teaset_sets_of(pub_cards: Seq<u64>) -> int {
    teaset_sets(
        pub_cards[CardKind::ThaiTea.index_spec()] as int,
        pub_cards[CardKind::Matcha.index_spec()] as int,
        pub_cards[CardKind::BrownSugarMilkTea.index_spec()] as int,
        pub_cards[CardKind::MysteryTea.index_spec()] as int,
    )
}

/// The tea-set bonus line: 5 points per set, present exactly when at least
/// one set is formed.
pub open spec fn teaset_entries(pub_cards: Seq<u64>) -> Seq<(Seq<char>, int)> {
    let sets = teaset_sets_of(pub_cards);
    if sets > 0 {
        seq![("Tea Set Bonus"@, sets * 50)]
    } else {
        Seq::empty()
    }
}

/// The full breakdown of one player's score: base categories, boosted fruit
/// teas, the quantity-tiered dessert, the cross-player majority/minority
/// award, and the tea-set bonus, in that order.
pub open spec fn breakdown_entries(player: Player, ps: Seq<Player>, pid: int) -> Seq<(
    Seq<char>,
    int,
)> {
    base_entries(player.public_cards@, NUM_KINDS as int) + boosted_entries(
        player.boosted_fruit_teas@,
        NUM_KINDS as int,
    ) + mochi_entries(player.public_cards@) + tapioca_entries(ps, pid) + teaset_entries(
        player.public_cards@,
    )
}

/// One player's total score in tenths.
pub open spec fn total_tenths_spec(player: Player, ps: Seq<Player>, pid: int) -> int {
    entries_total(breakdown_entries(player, ps, pid))
}

/// The label-and-points view of an optional line item.
pub open spec fn opt_views(o: Option<CategoryScore>) -> Seq<(Seq<char>, int)> {
    match o {
        Option::None => Seq::empty(),
        Option::Some(c) => seq![(c.category@, c.points_tenths as int)],
    }
}

fn score_base_categories(player: &Player, out: &mut Vec<CategoryScore>) -> (t: i64)
    requires
        player.wf(),
        counts_bounded(player.public_cards@),
    ensures
        entry_views(final(out)@) =~= entry_views(old(out)@) + base_entries(
            player.public_cards@,
            NUM_KINDS as int,
        ),
        t == entries_total(base_entries(player.public_cards@, NUM_KINDS as int)),
        0 <= t <= 265751101440,
{
    let mut total: i64 = 0;
    let mut i: usize = 0;
    while i < NUM_KINDS
        invariant
            player.wf(),
            counts_bounded(player.public_cards@),
            i <= NUM_KINDS,
            entry_views(out@) =~= entry_views(old(out)@) + base_entries(
                player.public_cards@,
                i as int,
            ),
            total == entries_total(base_entries(player.public_cards@, i as int)),
            0 <= total <= 24159191040 * i,
        decreases NUM_KINDS - i,
    {
        let k = CardKind::from_index(i);
        let cnt = player.public_cards.get_index(i);
        if cnt > 0 && !(matches!(k, CardKind::MochiIceCream)) {
            assert(k.score_spec() <= 3);
            proof {
                lemma_points_bounds(k.score_spec() as int, cnt as int, 10);
            }
            let pts: i64 = (k.score() as i64) * (cnt as i64) * 10;
            let entry = CategoryScore { category: k.name().to_owned(), points_tenths: pts };
            let ghost entries_before = out@;
            out.push(entry);
            proof {
                lemma_entries_total_push(
                    base_entries(player.public_cards@, i as int),
                    (k.name_spec(), pts as int),
                );
                assert(entry_views(out@) =~= entry_views(entries_before).push(
                    (k.name_spec(), pts as int),
                ));
                assert(entry_views(out@) =~= entry_views(old(out)@) + base_entries(
                    player.public_cards@,
                    i + 1,
                ));
            }
            total = total + pts;
        }
        i += 1;
    }
    total
}

fn score_boosted_fruit_teas(player: &Player, out: &mut Vec<CategoryScore>) -> (t: i64)
    requires
        player.wf(),
        counts_bounded(player.boosted_fruit_teas@),
    ensures
        entry_views(final(out)@) =~= entry_views(old(out)@) + boosted_entries(
            player.boosted_fruit_teas@,
            NUM_KINDS as int,
        ),
        t == entries_total(boosted_entries(player.boosted_fruit_teas@, NUM_KINDS as int)),
        0 <= t <= 265751101440,
{
    let mut total: i64 = 0;
    let mut i: usize = 0;
    while i < NUM_KINDS
        invariant
            player.wf(),
            counts_bounded(player.boosted_fruit_teas@),
            i <= NUM_KINDS,
            entry_views(out@) =~= entry_views(old(out)@) + boosted_entries(
                player.boosted_fruit_teas@,
                i as int,
            ),
            total == entries_total(boosted_entries(player.boosted_fruit_teas@, i as int)),
            0 <= total <= 24159191040 * i,
        decreases NUM_KINDS - i,
    {
        let k = CardKind::from_index(i);
        let cnt = player.boosted_fruit_teas.get_index(i);
        if cnt > 0 {
            assert(k.score_spec() <= 3);
            proof {
                lemma_points_bounds(k.score_spec() * 3, cnt as int, 10);
            }
            let pts: i64 = (k.score() as i64) * 3 * (cnt as i64) * 10;
            let entry = CategoryScore { category: k.boosted_name().to_owned(), points_tenths: pts };
            let ghost entries_before = out@;
            out.push(entry);
            proof {
                lemma_entries_total_push(
                    boosted_entries(player.boosted_fruit_teas@, i as int),
                    (k.boosted_name_spec(), pts as int),
                );
                assert(entry_views(out@) =~= entry_views(entries_before).push(
                    (k.boosted_name_spec(), pts as int),
                ));
                assert(entry_views(out@) =~= entry_views(old(out)@) + boosted_entries(
                    player.boosted_fruit_teas@,
                    i + 1,
                ));
            }
            total = total + pts;
        }
        i += 1;
    }
    total
}

fn score_mochi_ice_cream(player: &Player) -> (r: Option<CategoryScore>)
    requires
        player.wf(),
    ensures
        opt_views(r) =~= mochi_entries(player.public_cards@),
        r matches Some(c) ==> 0 <= c.points_tenths <= 150,
{
    let count = player.public_cards.get(CardKind::MochiIceCream);
    if count == 0 {
        return None;
    }
    let capped = if count > 5 {
        5
    } else {
        count
    };
    let points: i64 = if capped == 1 {
        10
    } else if capped == 2 {
        30
    } else if capped == 3 {
        60
    } else if capped == 4 {
        100
    } else {
        150
    };
    Some(
        CategoryScore {
            category: CardKind::MochiIceCream.name().to_owned(),
            points_tenths: points,
        },
    )
}

/// The maximum of a prefix is attained somewhere in it.
pub proof fn lemma_seq_max_attained(s: Seq<u64>, n: int)
    requires
        1 <= n <= s.len(),
    ensures
        exists|i: int| 0 <= i < n && s[i] == seq_max(s, n),
        forall|i: int| 0 <= i < n ==> s[i] <= seq_max(s, n),
    decreases n,
{
    if n == 1 {
        assert(s[0] == seq_max(s, 1));
    } else {
        lemma_seq_max_attained(s, n - 1);
        if s[n - 1] > seq_max(s, n - 1) {
            assert(s[n - 1] == seq_max(s, n));
        } else {
            let w = choose|i: int| 0 <= i < n - 1 && s[i] == seq_max(s, n - 1);
            assert(s[w] == seq_max(s, n));
        }
    }
}

/// The minimum of a prefix is attained somewhere in it.
pub proof fn lemma_seq_min_attained(s: Seq<u64>, n: int)
    requires
        1 <= n <= s.len(),
    ensures
        exists|i: int| 0 <= i < n && s[i] == seq_min(s, n),
        forall|i: int| 0 <= i < n ==> s[i] >= seq_min(s, n),
    decreases n,
{
    if n == 1 {
        assert(s[0] == seq_min(s, 1));
    } else {
        lemma_seq_min_attained(s, n - 1);
        if s[n - 1] < seq_min(s, n - 1) {
            assert(s[n - 1] == seq_min(s, n));
        } else {
            let w = choose|i: int| 0 <= i < n - 1 && s[i] == seq_min(s, n - 1);
            assert(s[w] == seq_min(s, n));
        }
    }
}

/// A value attained in a prefix has a positive occurrence count there, and
/// the count never exceeds the prefix length.
pub proof fn lemma_count_eq_bounds(s: Seq<u64>, n: int, v: int)
    requires
        0 <= n <= s.len(),
    ensures
        0 <= count_eq(s, n, v) <= n,
        (exists|i: int| 0 <= i < n && s[i] == v) ==> count_eq(s, n, v) >= 1,
    decreases n,
{
    if n > 0 {
        lemma_count_eq_bounds(s, n - 1, v);
        if exists|i: int| 0 <= i < n && s[i] == v {
            let i = choose|i: int| 0 <= i < n && s[i] == v;
            if i < n - 1 {
                assert(exists|j: int| 0 <= j < n - 1 && s[j] == v);
            }
        }
    }
}

fn score_tapioca_pearl(all_players: &Vec<Player>, player_id: usize) -> (r: Option<CategoryScore>)
    requires
        forall|i: int| 0 <= i < all_players@.len() ==> (#[trigger] all_players@[i]).wf(),
        player_id < all_players@.len(),
        all_players@.len() <= 0x1000_0000,
    ensures
        opt_views(r) =~= tapioca_entries(all_players@, player_id as int),
        r matches Some(c) ==> -60 <= c.points_tenths <= 60,
{
    let ghost cs = tapioca_counts(all_players@);
    let n = all_players.len();
    let mut mx: u64 = all_players[0].public_cards.get(CardKind::TapiocaPearl);
    let mut mn: u64 = mx;
    let mut i: usize = 1;
    while i < n
        invariant
            forall|j: int| 0 <= j < all_players@.len() ==> (#[trigger] all_players@[j]).wf(),
            n == all_players@.len(),
            cs == tapioca_counts(all_players@),
            1 <= i <= n,
            mx == seq_max(cs, i as int),
            mn == seq_min(cs, i as int),
        decreases n - i,
    {
        let c = all_players[i].public_cards.get(CardKind::TapiocaPearl);
        if c > mx {
            mx = c;
        }
        if c < mn {
            mn = c;
        }
        i += 1;
    }
    let mut maxt: u64 = 0;
    let mut mint: u64 = 0;
    let mut j: usize = 0;
    while j < n
        invariant
            forall|m: int| 0 <= m < all_players@.len() ==> (#[trigger] all_players@[m]).wf(),
            n == all_players@.len(),
            cs == tapioca_counts(all_players@),
            j <= n,
            maxt == count_eq(cs, j as int, mx as int),
            mint == count_eq(cs, j as int, mn as int),
            maxt <= j,
            mint <= j,
        decreases n - j,
    {
        let c = all_players[j].public_cards.get(CardKind::TapiocaPearl);
        if c == mx {
            maxt = maxt + 1;
        }
        if c == mn {
            mint = mint + 1;
        }
        j += 1;
    }
    proof {
        lemma_seq_max_attained(cs, n as int);
        lemma_seq_min_attained(cs, n as int);
        lemma_count_eq_bounds(cs, n as int, mx as int);
        lemma_count_eq_bounds(cs, n as int, mn as int);
        assert(1 <= maxt <= n);
        assert(1 <= mint <= n);
    }
    let my_count = all_players[player_id].public_cards.get(CardKind::TapiocaPearl);
    let mut points: i64 = 0;
    if my_count == mx && mx > 0 {
        points = points + 60 / (maxt as i64);
    }
    if my_count == mn {
        points = points - 60 / (mint as i64);
    }
    proof {
        assert(points == tapioca_points_tenths(all_players@, player_id as int));
    }
    if points == 0 {
        return None;
    }
    Some(
        CategoryScore {
            category: "Tapioca Pearl Majority/Minority".to_owned(),
            points_tenths: points,
        },
    )
}

fn score_tea_set_bonus(player: &Player) -> (r: Option<CategoryScore>)
    requires
        player.wf(),
        counts_bounded(player.public_cards@),
    ensures
        opt_views(r) =~= teaset_entries(player.public_cards@),
        r matches Some(c) ==> 0 <= c.points_tenths <= 50 * COUNT_LIMIT,
{
    let a = player.public_cards.get(CardKind::ThaiTea);
    let b = player.public_cards.get(CardKind::Matcha);
    let c = player.public_cards.get(CardKind::BrownSugarMilkTea);
    let d = player.public_cards.get(CardKind::MysteryTea);
    let (a1, b1) = if a >= b {
        (a, b)
    } else {
        (b, a)
    };
    let (c1, d1) = if c >= d {
        (c, d)
    } else {
        (d, c)
    };
    let (a2, c2) = if a1 >= c1 {
        (a1, c1)
    } else {
        (c1, a1)
    };
    let (b2, d2) = if b1 >= d1 {
        (b1, d1)
    } else {
        (d1, b1)
    };
    let (b3, c3) = if b2 >= c2 {
        (b2, c2)
    } else {
        (c2, b2)
    };
    let tail = c3 + d2;
    let inner = if b3 <= tail {
        b3
    } else {
        tail
    };
    let sets = if a2 <= inner {
        a2
    } else {
        inner
    };
    if sets == 0 {
        return None;
    }
    let points: i64 = (sets as i64) * 50;
    Some(CategoryScore { category: "Tea Set Bonus".to_owned(), points_tenths: points })
}

/// Compute the itemized score of `player`, using `all_players` for the
/// cross-player category. The result's line items and total are exactly the
/// specification's breakdown.
pub fn calculate_player_score(
    player: &Player,
    all_players: &Vec<Player>,
    player_id: usize,
) -> (r: ScoreBreakdown)
    requires
        player.wf(),
        forall|i: int| 0 <= i < all_players@.len() ==> (#[trigger] all_players@[i]).wf(),
        player_id < all_players@.len(),
        all_players@.len() <= 0x1000_0000,
        counts_bounded(player.public_cards@),
        counts_bounded(player.boosted_fruit_teas@),
    ensures
        entry_views(r.category_scores@) == breakdown_entries(
            *player,
            all_players@,
            player_id as int,
        ),
        r.total_tenths == total_tenths_spec(*player, all_players@, player_id as int),
        r.set_bonuses@.len() == 0,
{
    let ghost pubs = player.public_cards@;
    let ghost boos = player.boosted_fruit_teas@;
    let mut entries: Vec<CategoryScore> = Vec::new();
    let mut total: i64 = 0;

    let base_total = score_base_categories(player, &mut entries);
    total = total + base_total;

    let boost_total = score_boosted_fruit_teas(player, &mut entries);
    total = total + boost_total;

    let ghost before_mochi = entry_views(entries@);
    let mochi_r = score_mochi_ice_cream(player);
    if let Some(mochi) = mochi_r {
        proof {
            lemma_entries_total_single((mochi.category@, mochi.points_tenths as int));
        }
        total = total + mochi.points_tenths;
        entries.push(mochi);
    }
    proof {
        assert(entry_views(entries@) =~= before_mochi + mochi_entries(pubs));
        assert(entries_total(mochi_entries(pubs)) == entries_total(opt_views(mochi_r)));
    }

    let ghost before_tap = entry_views(entries@);
    let tap_r = score_tapioca_pearl(all_players, player_id);
    if let Some(tapioca) = tap_r {
        proof {
            lemma_entries_total_single((tapioca.category@, tapioca.points_tenths as int));
        }
        total = total + tapioca.points_tenths;
        entries.push(tapioca);
    }
    proof {
        assert(entry_views(entries@) =~= before_tap + tapioca_entries(
            all_players@,
            player_id as int,
        ));
        assert(entries_total(tapioca_entries(all_players@, player_id as int)) == entries_total(
            opt_views(tap_r),
        ));
    }

    let ghost before_set = entry_views(entries@);
    let set_r = score_tea_set_bonus(player);
    if let Some(teaset) = set_r {
        proof {
            lemma_entries_total_single((teaset.category@, teaset.points_tenths as int));
        }
        total = total + teaset.points_tenths;
        entries.push(teaset);
    }
    proof {
        assert(entry_views(entries@) =~= before_set + teaset_entries(pubs));
        assert(entries_total(teaset_entries(pubs)) == entries_total(opt_views(set_r)));
        assert(entry_views(entries@) =~= breakdown_entries(
            *player,
            all_players@,
            player_id as int,
        ));
        lemma_entries_total_concat(
            base_entries(pubs, NUM_KINDS as int),
            boosted_entries(boos, NUM_KINDS as int),
        );
        lemma_entries_total_concat(
            base_entries(pubs, NUM_KINDS as int) + boosted_entries(boos, NUM_KINDS as int),
            mochi_entries(pubs),
        );
        lemma_entries_total_concat(
            base_entries(pubs, NUM_KINDS as int) + boosted_entries(boos, NUM_KINDS as int)
                + mochi_entries(pubs),
            tapioca_entries(all_players@, player_id as int),
        );
        lemma_entries_total_concat(
            base_entries(pubs, NUM_KINDS as int) + boosted_entries(boos, NUM_KINDS as int)
                + mochi_entries(pubs) + tapioca_entries(all_players@, player_id as int),
            teaset_entries(pubs),
        );
    }
    ScoreBreakdown { category_scores: entries, set_bonuses: Vec::new(), total_tenths: total }
}

} // verus!
