use vstd::prelude::*;

use crate::hand::HandExplicit;
use crate::hand::b2i;
use crate::hand::lemma_overlaps_symmetric;
use crate::pairs::HandPairs;

verus! {

/// Both players' hands in one column: player A's, then player B's.
pub type HandPair = (HandExplicit, HandExplicit);

/// The column pair with the two players' hands swapped.
pub open spec fn swap_pair(p: HandPair) -> HandPair {
    (p.1, p.0)
}

/// Whether `(x1, x2, x3)` is a permutation of `(a, b, c)`.
pub open spec fn is_perm3<T>(x1: T, x2: T, x3: T, a: T, b: T, c: T) -> bool {
    ||| (x1 == a && x2 == b && x3 == c)
    ||| (x1 == a && x2 == c && x3 == b)
    ||| (x1 == b && x2 == a && x3 == c)
    ||| (x1 == b && x2 == c && x3 == a)
    ||| (x1 == c && x2 == a && x3 == b)
    ||| (x1 == c && x2 == b && x3 == a)
}

/// Player A has filled all three columns.
pub open spec fn spec_p1_full(c1: HandPair, c2: HandPair, c3: HandPair) -> bool {
    c1.0.spec_is_full() && c2.0.spec_is_full() && c3.0.spec_is_full()
}

/// Player B has filled all three columns.
pub open spec fn spec_p2_full(c1: HandPair, c2: HandPair, c3: HandPair) -> bool {
    c1.1.spec_is_full() && c2.1.spec_is_full() && c3.1.spec_is_full()
}

/// A canonical game state: three column indices into the pair table, kept
/// sorted ascending so that all permutations of the same columns coincide.
pub struct State {
    pub column_1: u16,
    pub column_2: u16,
    pub column_3: u16,
}

impl State {
    /// The state invariant relative to a pair table: the indices are sorted
    /// and in range.
    pub open spec fn wf_for(self, hand_pairs: HandPairs) -> bool {
        &&& self.column_1 <= self.column_2
        &&& self.column_2 <= self.column_3
        &&& (self.column_3 as int) < hand_pairs.pairs@.len()
    }

    /// The canonical state over the three column indices: the same three
    /// indices in any order give the same state.
    pub fn new_by_index(column_a: u16, column_b: u16, column_c: u16) -> (s: State)
        ensures
            s.column_1 <= s.column_2,
            s.column_2 <= s.column_3,
            is_perm3(s.column_1, s.column_2, s.column_3, column_a, column_b, column_c),
    {
        let (lo, hi) = if column_a <= column_b {
            (column_a, column_b)
        } else {
            (column_b, column_a)
        };
        if column_c < lo {
            State { column_1: column_c, column_2: lo, column_3: hi }
        } else if column_c < hi {
            State { column_1: lo, column_2: column_c, column_3: hi }
        } else {
            State { column_1: lo, column_2: hi, column_3: column_c }
        }
    }

    /// The canonical state whose columns hold the three given pairs.
    pub fn new(
        hand_pairs: &HandPairs,
        column_a: &HandPair,
        column_b: &HandPair,
        column_c: &HandPair,
    ) -> (s: State)
        requires
            hand_pairs.wf(),
            hand_pairs.pairs@.contains(*column_a),
            hand_pairs.pairs@.contains(*column_b),
            hand_pairs.pairs@.contains(*column_c),
        ensures
            s.wf_for(*hand_pairs),
            is_perm3(
                hand_pairs.pairs@[s.column_1 as int],
                hand_pairs.pairs@[s.column_2 as int],
                hand_pairs.pairs@[s.column_3 as int],
                *column_a,
                *column_b,
                *column_c,
            ),
    {
        State::new_by_index(
            hand_pairs.get_by_hand(column_a),
            hand_pairs.get_by_hand(column_b),
            hand_pairs.get_by_hand(column_c),
        )
    }

    /// The three column pairs of the state, in canonical order.
    pub fn hands(&self, hand_pairs: &HandPairs) -> (r: (HandPair, HandPair, HandPair))
        requires
            self.wf_for(*hand_pairs),
        ensures
            r.0 == hand_pairs.pairs@[self.column_1 as int],
            r.1 == hand_pairs.pairs@[self.column_2 as int],
            r.2 == hand_pairs.pairs@[self.column_3 as int],
    {
        (
            hand_pairs.get_by_index(self.column_1),
            hand_pairs.get_by_index(self.column_2),
            hand_pairs.get_by_index(self.column_3),
        )
    }

    /// The state with the two players' hands swapped in every column.
    pub fn reverse(&self, hand_pairs: &HandPairs) -> (r: State)
        requires
            hand_pairs.wf(),
            self.wf_for(*hand_pairs),
        ensures
            r.wf_for(*hand_pairs),
            is_perm3(
                hand_pairs.pairs@[r.column_1 as int],
                hand_pairs.pairs@[r.column_2 as int],
                hand_pairs.pairs@[r.column_3 as int],
                swap_pair(hand_pairs.pairs@[self.column_1 as int]),
                swap_pair(hand_pairs.pairs@[self.column_2 as int]),
                swap_pair(hand_pairs.pairs@[self.column_3 as int]),
            ),
    {
        let (c1, c2, c3) = self.hands(hand_pairs);
        let r1 = (c1.1, c1.0);
        let r2 = (c2.1, c2.0);
        let r3 = (c3.1, c3.0);
        proof {
            lemma_overlaps_symmetric(c1.0, c1.1);
            lemma_overlaps_symmetric(c2.0, c2.1);
            lemma_overlaps_symmetric(c3.0, c3.1);
            assert(hand_pairs.pairs@.contains(r1));
            assert(hand_pairs.pairs@.contains(r2));
            assert(hand_pairs.pairs@.contains(r3));
        }
        State::new(hand_pairs, &r1, &r2, &r3)
    }

    /// Whether the game has ended: some player has filled all three columns.
    pub fn is_done(&self, hand_pairs: &HandPairs) -> (r: bool)
        requires
            self.wf_for(*hand_pairs),
        ensures
            r == {
                let c1 = hand_pairs.pairs@[self.column_1 as int];
                let c2 = hand_pairs.pairs@[self.column_2 as int];
                let c3 = hand_pairs.pairs@[self.column_3 as int];
                spec_p1_full(c1, c2, c3) || spec_p2_full(c1, c2, c3)
            },
    {
        let (c1, c2, c3) = self.hands(hand_pairs);
        (c1.0.is_full() && c2.0.is_full() && c3.0.is_full()) || (c1.1.is_full() && c2.1.is_full()
            && c3.1.is_full())
    }

    /// How many columns still have room for player A to place a die.
    pub fn num_choices(&self, hand_pairs: &HandPairs) -> (r: u8)
        requires
            self.wf_for(*hand_pairs),
        ensures
            r == b2i(!hand_pairs.pairs@[self.column_1 as int].0.spec_is_full()) + b2i(
                !hand_pairs.pairs@[self.column_2 as int].0.spec_is_full(),
            ) + b2i(!hand_pairs.pairs@[self.column_3 as int].0.spec_is_full()),
    {
        let (c1, c2, c3) = self.hands(hand_pairs);
        let mut x: u8 = 0;
        if !c1.0.is_full() {
            x = x + 1;
        }
        if !c2.0.is_full() {
            x = x + 1;
        }
        if !c3.0.is_full() {
            x = x + 1;
        }
        x
    }
}

/// The triple cannot arise in play: both players have filled all columns.
pub open spec fn is_invalid(c1: HandPair, c2: HandPair, c3: HandPair) -> bool {
    spec_p1_full(c1, c2, c3) && spec_p2_full(c1, c2, c3)
}

/// The triple is a final state: exactly one player has filled all columns.
pub open spec fn is_final(c1: HandPair, c2: HandPair, c3: HandPair) -> bool {
    spec_p1_full(c1, c2, c3) != spec_p2_full(c1, c2, c3)
}

/// The triple is an intermediate state: neither player has filled all columns.
pub open spec fn is_intermediate(c1: HandPair, c2: HandPair, c3: HandPair) -> bool {
    !spec_p1_full(c1, c2, c3) && !spec_p2_full(c1, c2, c3)
}

/// Selects the intermediate triples.
pub open spec fn intermediate_sel() -> spec_fn(HandPair, HandPair, HandPair) -> bool {
    |c1: HandPair, c2: HandPair, c3: HandPair| is_intermediate(c1, c2, c3)
}

/// Selects the final triples.
pub open spec fn final_sel() -> spec_fn(HandPair, HandPair, HandPair) -> bool {
    |c1: HandPair, c2: HandPair, c3: HandPair| is_final(c1, c2, c3)
}

/// Selects the invalid triples.
pub open spec fn invalid_sel() -> spec_fn(HandPair, HandPair, HandPair) -> bool {
    |c1: HandPair, c2: HandPair, c3: HandPair| is_invalid(c1, c2, c3)
}

/// Selects every triple.
pub open spec fn any_sel() -> spec_fn(HandPair, HandPair, HandPair) -> bool {
    |c1: HandPair, c2: HandPair, c3: HandPair| true
}

/// How many triples `(i, j, t)` with `t` in `[j, k)` the selector accepts.
pub open spec fn cnt_inner(
    ps: Seq<HandPair>,
    i: int,
    j: int,
    k: int,
    sel: spec_fn(HandPair, HandPair, HandPair) -> bool,
) -> int
    decreases k - j,
{
    if k <= j {
        0
    } else {
        cnt_inner(ps, i, j, k - 1, sel) + (if sel(ps[i], ps[j], ps[k - 1]) {
            1int
        } else {
            0int
        })
    }
}

/// How many triples `(i, s, t)` with `s` in `[i, j)` and `t` in `[s, len)`
/// the selector accepts.
pub open spec fn cnt_mid(
    ps: Seq<HandPair>,
    i: int,
    j: int,
    sel: spec_fn(HandPair, HandPair, HandPair) -> bool,
) -> int
    decreases j - i,
{
    if j <= i {
        0
    } else {
        cnt_mid(ps, i, j - 1, sel) + cnt_inner(ps, i, j - 1, ps.len() as int, sel)
    }
}

/// How many canonical triples `(r, s, t)` with `r < i` and
/// `r <= s <= t < len` the selector accepts.
pub open spec fn cnt_outer(
    ps: Seq<HandPair>,
    i: int,
    sel: spec_fn(HandPair, HandPair, HandPair) -> bool,
) -> int
    decreases i,
{
    if i <= 0 {
        0
    } else {
        cnt_outer(ps, i - 1, sel) + cnt_mid(ps, i - 1, ps.len() as int, sel)
    }
}

proof fn lemma_cnt_inner_bounds(
    ps: Seq<HandPair>,
    i: int,
    j: int,
    k: int,
    sel: spec_fn(HandPair, HandPair, HandPair) -> bool,
)
    requires
        j <= k,
    ensures
        0 <= cnt_inner(ps, i, j, k, sel) <= k - j,
    decreases k - j,
{
    if k > j {
        lemma_cnt_inner_bounds(ps, i, j, k - 1, sel);
    }
}

proof fn lemma_cnt_mid_bounds(
    ps: Seq<HandPair>,
    i: int,
    j: int,
    sel: spec_fn(HandPair, HandPair, HandPair) -> bool,
)
    requires
        0 <= i <= j <= ps.len(),
    ensures
        0 <= cnt_mid(ps, i, j, sel) <= (j - i) * (ps.len() as int),
    decreases j - i,
{
    let n = ps.len() as int;
    if j > i {
        lemma_cnt_mid_bounds(ps, i, j - 1, sel);
        lemma_cnt_inner_bounds(ps, i, j - 1, n, sel);
        assert((j - 1 - i) * n + n == (j - i) * n) by (nonlinear_arith);
    } else {
        assert((j - i) * n == 0) by (nonlinear_arith)
            requires
                j == i,
        ;
    }
}

proof fn lemma_cnt_outer_bounds(
    ps: Seq<HandPair>,
    i: int,
    sel: spec_fn(HandPair, HandPair, HandPair) -> bool,
)
    requires
        0 <= i <= ps.len(),
    ensures
        0 <= cnt_outer(ps, i, sel) <= i * ((ps.len() as int) * (ps.len() as int)),
    decreases i,
{
    let n = ps.len() as int;
    if i > 0 {
        lemma_cnt_outer_bounds(ps, i - 1, sel);
        lemma_cnt_mid_bounds(ps, i - 1, n, sel);
        assert((n - (i - 1)) * n <= n * n) by (nonlinear_arith)
            requires
                1 <= i && n >= 0,
        ;
        assert((i - 1) * (n * n) + n * n == i * (n * n)) by (nonlinear_arith);
    } else {
        assert(i * (n * n) == 0) by (nonlinear_arith)
            requires
                i == 0,
        ;
    }
}

proof fn lemma_partition_inner(ps: Seq<HandPair>, i: int, j: int, k: int)
    requires
        j <= k,
    ensures
        cnt_inner(ps, i, j, k, intermediate_sel()) + cnt_inner(ps, i, j, k, final_sel())
            + cnt_inner(ps, i, j, k, invalid_sel()) == cnt_inner(ps, i, j, k, any_sel()),
    decreases k - j,
{
    if k > j {
        lemma_partition_inner(ps, i, j, k - 1);
    }
}

proof fn lemma_partition_mid(ps: Seq<HandPair>, i: int, j: int)
    requires
        i <= j <= ps.len(),
    ensures
        cnt_mid(ps, i, j, intermediate_sel()) + cnt_mid(ps, i, j, final_sel()) + cnt_mid(
            ps,
            i,
            j,
            invalid_sel(),
        ) == cnt_mid(ps, i, j, any_sel()),
    decreases j - i,
{
    if j > i {
        lemma_partition_mid(ps, i, j - 1);
        lemma_partition_inner(ps, i, j - 1, ps.len() as int);
    }
}

/// Every canonical triple is of exactly one kind, so the intermediate, final
/// and invalid counts together cover the whole enumeration, each triple
/// counted once.
pub proof fn lemma_counts_partition(ps: Seq<HandPair>, i: int)
    requires
        0 <= i <= ps.len(),
    ensures
        cnt_outer(ps, i, intermediate_sel()) + cnt_outer(ps, i, final_sel()) + cnt_outer(
            ps,
            i,
            invalid_sel(),
        ) == cnt_outer(ps, i, any_sel()),
    decreases i,
{
    if i > 0 {
        lemma_counts_partition(ps, i - 1);
        lemma_partition_mid(ps, i - 1, ps.len() as int);
    }
}

proof fn lemma_total_inner(ps: Seq<HandPair>, i: int, j: int, k: int)
    requires
        j <= k,
    ensures
        cnt_inner(ps, i, j, k, any_sel()) == k - j,
    decreases k - j,
{
    if k > j {
        lemma_total_inner(ps, i, j, k - 1);
    }
}

proof fn lemma_total_mid(ps: Seq<HandPair>, i: int, j: int)
    requires
        0 <= i <= j <= ps.len(),
    ensures
        2 * cnt_mid(ps, i, j, any_sel()) == (j - i) * (2 * (ps.len() as int) - i - j + 1),
    decreases j - i,
{
    let n = ps.len() as int;
    if j > i {
        lemma_total_mid(ps, i, j - 1);
        lemma_total_inner(ps, i, j - 1, n);
        assert((j - 1 - i) * (2 * n - i - (j - 1) + 1) + 2 * (n - (j - 1)) == (j - i) * (2 * n - i
            - j + 1)) by (nonlinear_arith);
    } else {
        assert((j - i) * (2 * n - i - j + 1) == 0) by (nonlinear_arith)
            requires
                j == i,
        ;
    }
}

proof fn lemma_total_outer(ps: Seq<HandPair>, i: int)
    requires
        0 <= i <= ps.len(),
    ensures
        6 * cnt_outer(ps, i, any_sel()) == (ps.len() as int) * ((ps.len() as int) + 1) * ((
        ps.len() as int) + 2) - ((ps.len() as int) - i) * (((ps.len() as int) - i) + 1) * (((
        ps.len() as int) - i) + 2),
    decreases i,
{
    let n = ps.len() as int;
    if i > 0 {
        lemma_total_outer(ps, i - 1);
        lemma_total_mid(ps, i - 1, n);
        assert(cnt_outer(ps, i, any_sel()) == cnt_outer(ps, i - 1, any_sel()) + cnt_mid(
            ps,
            i - 1,
            n,
            any_sel(),
        ));
        assert(6 * cnt_outer(ps, i, any_sel()) == n * (n + 1) * (n + 2) - (n - i) * ((n - i) + 1)
            * ((n - i) + 2)) by (nonlinear_arith)
            requires
                cnt_outer(ps, i, any_sel()) == cnt_outer(ps, i - 1, any_sel()) + cnt_mid(
                    ps,
                    i - 1,
                    n,
                    any_sel(),
                ),
                6 * cnt_outer(ps, i - 1, any_sel()) == n * (n + 1) * (n + 2) - (n - (i - 1)) * ((n
                    - (i - 1)) + 1) * ((n - (i - 1)) + 2),
                2 * cnt_mid(ps, i - 1, n, any_sel()) == (n - (i - 1)) * (2 * n - (i - 1) - n + 1),
        ;
    } else {
        assert((n - i) * ((n - i) + 1) * ((n - i) + 2) == n * (n + 1) * (n + 2)) by (
        nonlinear_arith)
            requires
                i == 0,
        ;
    }
}

/// The bounded enumeration visits every unordered triple of pair indices,
/// with repetition, exactly once: over `n` pairs, the intermediate, final and
/// invalid counts add up to the combination-with-repetition total
/// C(n + 2, 3) = n (n + 1) (n + 2) / 6.
pub proof fn lemma_enumeration_total(ps: Seq<HandPair>)
    ensures
        6 * (cnt_outer(ps, ps.len() as int, intermediate_sel()) + cnt_outer(
            ps,
            ps.len() as int,
            final_sel(),
        ) + cnt_outer(ps, ps.len() as int, invalid_sel())) == (ps.len() as int) * ((
        ps.len() as int) + 1) * ((ps.len() as int) + 2),
{
    let n = ps.len() as int;
    lemma_counts_partition(ps, n);
    lemma_total_outer(ps, n);
    assert((n - n) * ((n - n) + 1) * ((n - n) + 2) == 0) by (nonlinear_arith);
}

/// No triple with both players simultaneously full lands in either bucket:
/// the two published counters together cover exactly the triples that are
/// not invalid.
pub proof fn lemma_invalid_excluded(ps: Seq<HandPair>)
    ensures
        cnt_outer(ps, ps.len() as int, intermediate_sel()) + cnt_outer(
            ps,
            ps.len() as int,
            final_sel(),
        ) == cnt_outer(ps, ps.len() as int, any_sel()) - cnt_outer(
            ps,
            ps.len() as int,
            invalid_sel(),
        ),
{
    lemma_counts_partition(ps, ps.len() as int);
}

/// Streams over every canonical triple of column indices — each inner index
/// starting where the enclosing one stands, so each unordered triple is
/// visited exactly once — and counts the intermediate and the final states.
/// Invalid triples, where both players are full, are skipped.
#[verifier::loop_isolation(false)]
pub fn state_counts(hand_pairs: Vec<HandPair>) -> (r: (u64, u64))
    requires
        hand_pairs@.len() <= 2_000_000,
    ensures
        r.0 == cnt_outer(hand_pairs@, hand_pairs@.len() as int, intermediate_sel()),
        r.1 == cnt_outer(hand_pairs@, hand_pairs@.len() as int, final_sel()),
{
    let ghost ps = hand_pairs@;
    let n = hand_pairs.len();
    let mut intermediate_states: u64 = 0;
    let mut final_states: u64 = 0;
    let mut i: usize = 0;
    while i < n
        invariant
            i <= n,
            intermediate_states == cnt_outer(ps, i as int, intermediate_sel()),
            final_states == cnt_outer(ps, i as int, final_sel()),
        decreases n - i,
    {
        let mut j = i;
        while j < n
            invariant
                i < n,
                i <= j <= n,
                intermediate_states == cnt_outer(ps, i as int, intermediate_sel()) + cnt_mid(
                    ps,
                    i as int,
                    j as int,
                    intermediate_sel(),
                ),
                final_states == cnt_outer(ps, i as int, final_sel()) + cnt_mid(
                    ps,
                    i as int,
                    j as int,
                    final_sel(),
                ),
            decreases n - j,
        {
            let mut k = j;
            while k < n
                invariant
                    i <= j < n,
                    j <= k <= n,
                    intermediate_states == cnt_outer(ps, i as int, intermediate_sel()) + cnt_mid(
                        ps,
                        i as int,
                        j as int,
                        intermediate_sel(),
                    ) + cnt_inner(ps, i as int, j as int, k as int, intermediate_sel()),
                    final_states == cnt_outer(ps, i as int, final_sel()) + cnt_mid(
                        ps,
                        i as int,
                        j as int,
                        final_sel(),
                    ) + cnt_inner(ps, i as int, j as int, k as int, final_sel()),
                decreases n - k,
            {
                proof {
                    lemma_cnt_outer_bounds(ps, i as int, intermediate_sel());
                    lemma_cnt_mid_bounds(ps, i as int, j as int, intermediate_sel());
                    lemma_cnt_inner_bounds(ps, i as int, j as int, k as int, intermediate_sel());
                    lemma_cnt_outer_bounds(ps, i as int, final_sel());
                    lemma_cnt_mid_bounds(ps, i as int, j as int, final_sel());
                    lemma_cnt_inner_bounds(ps, i as int, j as int, k as int, final_sel());
                    assert((i as int) * ((n as int) * (n as int)) + (j as int - i as int) * (
                    n as int) + (k as int - j as int) < 0xffff_ffff_ffff_ffff)
                        by (nonlinear_arith)
                        requires
                            0 <= i as int <= n as int,
                            i as int <= j as int <= n as int,
                            j as int <= k as int <= n as int,
                            n as int <= 2_000_000,
                    ;
                }
                let p1_full = hand_pairs[i].0.is_full() && hand_pairs[j].0.is_full()
                    && hand_pairs[k].0.is_full();
                let p2_full = hand_pairs[i].1.is_full() && hand_pairs[j].1.is_full()
                    && hand_pairs[k].1.is_full();
                if p1_full && p2_full {
                    // Invalid state: both players cannot be full at once.
                } else if p1_full != p2_full {
                    final_states = final_states + 1;
                } else {
                    intermediate_states = intermediate_states + 1;
                }
                k = k + 1;
            }
            j = j + 1;
        }
        i = i + 1;
    }
    (intermediate_states, final_states)
}

} // verus!
