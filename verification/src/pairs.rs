use vstd::prelude::*;

use crate::die::Die;
use crate::die::lemma_die_val_injective;
use crate::die::lemma_die_val_range;
use crate::hand::HandExplicit;
use crate::hand::overlaps;
use crate::hand::spec_overlaps;

verus! {

/// The position of a hand in the generator's emission order: slot values read
/// as a three-digit base-7 number, so later hands rank strictly higher.
pub open spec fn rank(h: HandExplicit) -> int {
    h.spec_val_1() * 49 + h.spec_val_2() * 7 + h.spec_val_3()
}

/// How many hands one round of the generator emits for second values
/// below `b`, the first value being `a`: one two-die hand and `7 - k`
/// three-die hands for each second value `k` in `a..b`.
pub open spec fn mid_count(a: int, b: int) -> int
    decreases b - a,
{
    if b <= a {
        0
    } else {
        mid_count(a, b - 1) + (8 - (b - 1))
    }
}

/// How many hands the generator emits before it reaches first value `a`:
/// the empty hand, and one full round for each smaller first value.
pub open spec fn outer_count(a: int) -> int
    decreases a,
{
    if a <= 1 {
        1
    } else {
        outer_count(a - 1) + 1 + mid_count(a - 1, 7)
    }
}

/// Every well-formed hand exactly once: the empty hand, then, for each first
/// value, the one-die hand and every extension by non-decreasing second and
/// third values.
#[verifier::loop_isolation(false)]
pub fn hands() -> (v: Vec<HandExplicit>)
    ensures
        v@.len() == 84,
        forall|i: int| 0 <= i < v@.len() ==> (#[trigger] v@[i]).well_formed(),
        forall|i: int, j: int| 0 <= i < j < v@.len() ==> v@[i] != v@[j],
        forall|i: int, j: int| 0 <= i < j < v@.len() ==> rank(v@[i]) < rank(v@[j]),
        forall|h: HandExplicit| h.well_formed() ==> v@.contains(h),
{
    broadcast use vstd::seq_lib::lemma_seq_contains_after_push;

    let mut v: Vec<HandExplicit> = Vec::new();
    v.push(HandExplicit::empty());
    let mut a: u8 = 1;
    while a <= 6
        invariant
            1 <= a <= 7,
            v@.len() == outer_count(a as int),
            forall|i: int| 0 <= i < v@.len() ==> (#[trigger] v@[i]).well_formed(),
            forall|i: int, j: int| 0 <= i < j < v@.len() ==> v@[i] != v@[j],
            forall|i: int, j: int| 0 <= i < j < v@.len() ==> rank(v@[i]) < rank(v@[j]),
            forall|i: int| 0 <= i < v@.len() ==> rank(#[trigger] v@[i]) < 49 * (a as int),
            v@.contains(HandExplicit { die_1: None, die_2: None, die_3: None }),
            forall|h: HandExplicit|
                h.well_formed() && h.die_1 is Some && h.spec_val_1() < a ==> v@.contains(h),
        decreases 7 - a,
    {
        let da = Die::from_val(a);
        v.push(HandExplicit::new1(da));
        proof {
            assert forall|h: HandExplicit|
                h.well_formed() && h.die_1 is Some && h.spec_val_1() == a && h.die_2 is None
                    implies v@.contains(h) by {
                lemma_die_val_injective(h.die_1->0, da);
                assert(h == (HandExplicit { die_1: Some(da), die_2: None, die_3: None }));
            }
        }
        let mut b: u8 = a;
        while b <= 6
            invariant
                a <= b <= 7,
                v@.len() == outer_count(a as int) + 1 + mid_count(a as int, b as int),
                forall|i: int| 0 <= i < v@.len() ==> (#[trigger] v@[i]).well_formed(),
                forall|i: int, j: int| 0 <= i < j < v@.len() ==> v@[i] != v@[j],
                forall|i: int, j: int| 0 <= i < j < v@.len() ==> rank(v@[i]) < rank(v@[j]),
                forall|i: int|
                    0 <= i < v@.len() ==> rank(#[trigger] v@[i]) < 49 * (a as int) + 7 * (
                    b as int),
                v@.contains(HandExplicit { die_1: None, die_2: None, die_3: None }),
                forall|h: HandExplicit|
                    h.well_formed() && h.die_1 is Some && h.spec_val_1() < a ==> v@.contains(h),
                forall|h: HandExplicit|
                    h.well_formed() && h.die_1 is Some && h.spec_val_1() == a && h.die_2 is None
                        ==> v@.contains(h),
                forall|h: HandExplicit|
                    h.well_formed() && h.die_2 is Some && h.spec_val_1() == a && h.spec_val_2()
                        < b ==> v@.contains(h),
            decreases 7 - b,
        {
            let db = Die::from_val(b);
            v.push(HandExplicit::new2(da, db));
            proof {
                assert forall|h: HandExplicit|
                    h.well_formed() && h.die_2 is Some && h.spec_val_1() == a && h.spec_val_2()
                        == b && h.die_3 is None implies v@.contains(h) by {
                    lemma_die_val_injective(h.die_1->0, da);
                    lemma_die_val_injective(h.die_2->0, db);
                    assert(h == (HandExplicit { die_1: Some(da), die_2: Some(db), die_3: None }));
                }
            }
            let mut c: u8 = b;
            while c <= 6
                invariant
                    b <= c <= 7,
                    v@.len() == outer_count(a as int) + 1 + mid_count(a as int, b as int) + 1 + (
                    c as int - b as int),
                    forall|i: int| 0 <= i < v@.len() ==> (#[trigger] v@[i]).well_formed(),
                    forall|i: int, j: int| 0 <= i < j < v@.len() ==> v@[i] != v@[j],
                    forall|i: int, j: int|
                        0 <= i < j < v@.len() ==> rank(v@[i]) < rank(v@[j]),
                    forall|i: int|
                        0 <= i < v@.len() ==> rank(#[trigger] v@[i]) < 49 * (a as int) + 7 * (
                        b as int) + (c as int),
                    v@.contains(HandExplicit { die_1: None, die_2: None, die_3: None }),
                    forall|h: HandExplicit|
                        h.well_formed() && h.die_1 is Some && h.spec_val_1() < a ==> v@.contains(
                            h,
                        ),
                    forall|h: HandExplicit|
                        h.well_formed() && h.die_1 is Some && h.spec_val_1() == a && h.die_2
                            is None ==> v@.contains(h),
                    forall|h: HandExplicit|
                        h.well_formed() && h.die_2 is Some && h.spec_val_1() == a
                            && h.spec_val_2() < b ==> v@.contains(h),
                    forall|h: HandExplicit|
                        h.well_formed() && h.die_2 is Some && h.spec_val_1() == a
                            && h.spec_val_2() == b && h.die_3 is None ==> v@.contains(h),
                    forall|h: HandExplicit|
                        h.well_formed() && h.die_3 is Some && h.spec_val_1() == a
                            && h.spec_val_2() == b && h.spec_val_3() < c ==> v@.contains(h),
                decreases 7 - c,
            {
                let dc = Die::from_val(c);
                v.push(HandExplicit::new(da, db, dc));
                proof {
                    assert forall|h: HandExplicit|
                        h.well_formed() && h.die_3 is Some && h.spec_val_1() == a
                            && h.spec_val_2() == b && h.spec_val_3() == c implies v@.contains(
                        h,
                    ) by {
                        lemma_die_val_injective(h.die_1->0, da);
                        lemma_die_val_injective(h.die_2->0, db);
                        lemma_die_val_injective(h.die_3->0, dc);
                        assert(h == (HandExplicit {
                            die_1: Some(da),
                            die_2: Some(db),
                            die_3: Some(dc),
                        }));
                    }
                }
                c = c + 1;
            }
            proof {
                assert forall|h: HandExplicit|
                    h.well_formed() && h.die_2 is Some && h.spec_val_1() == a && h.spec_val_2()
                        < b + 1 implies v@.contains(h) by {
                    if h.spec_val_2() == b && h.die_3 is Some {
                        lemma_die_val_range(h.die_3->0);
                    }
                }
            }
            b = b + 1;
        }
        proof {
            assert forall|h: HandExplicit|
                h.well_formed() && h.die_1 is Some && h.spec_val_1() < a + 1 implies v@.contains(
                h,
            ) by {
                if h.spec_val_1() == a && h.die_2 is Some {
                    lemma_die_val_range(h.die_2->0);
                }
            }
        }
        a = a + 1;
    }
    proof {
        assert(outer_count(7) == 84) by {
            reveal_with_fuel(mid_count, 8);
            reveal_with_fuel(outer_count, 8);
        }
        assert forall|h: HandExplicit| h.well_formed() implies v@.contains(h) by {
            if h.die_1 is None {
                assert(h == (HandExplicit { die_1: None, die_2: None, die_3: None }));
            } else {
                lemma_die_val_range(h.die_1->0);
            }
        }
    }
    v
}

/// Strict lexicographic order on index pairs: the order in which the pair
/// generator visits them.
pub open spec fn lex_lt(p: (int, int), q: (int, int)) -> bool {
    p.0 < q.0 || (p.0 == q.0 && p.1 < q.1)
}

/// Every ordered pair of non-overlapping hands from `hands`, exactly once:
/// the first hand is player A's, the second player B's.
#[verifier::loop_isolation(false)]
pub fn hand_pairs(hands: Vec<HandExplicit>) -> (v: Vec<(HandExplicit, HandExplicit)>)
    requires
        forall|i: int, j: int| 0 <= i < j < hands@.len() ==> hands@[i] != hands@[j],
    ensures
        v@.len() <= hands@.len() * hands@.len(),
        forall|k: int|
            0 <= k < v@.len() ==> hands@.contains((#[trigger] v@[k]).0) && hands@.contains(
                v@[k].1,
            ) && !spec_overlaps(v@[k].0, v@[k].1),
        forall|k1: int, k2: int| 0 <= k1 < k2 < v@.len() ==> v@[k1] != v@[k2],
        forall|i: int, j: int|
            0 <= i < hands@.len() && 0 <= j < hands@.len() && !spec_overlaps(
                hands@[i],
                hands@[j],
            ) ==> #[trigger] v@.contains((hands@[i], hands@[j])),
{
    broadcast use vstd::seq_lib::lemma_seq_contains_after_push;

    let n = hands.len();
    let mut v: Vec<(HandExplicit, HandExplicit)> = Vec::new();
    let ghost mut org: Seq<(int, int)> = Seq::empty();
    let mut i: usize = 0;
    while i < n
        invariant
            i <= n,
            n == hands@.len(),
            org.len() == v@.len(),
            v@.len() <= i * n,
            forall|k: int|
                0 <= k < v@.len() ==> 0 <= (#[trigger] org[k]).0 < n && 0 <= org[k].1 < n,
            forall|k: int|
                0 <= k < v@.len() ==> #[trigger] v@[k] == (hands@[org[k].0], hands@[org[k].1]),
            forall|k: int| 0 <= k < v@.len() ==> lex_lt(#[trigger] org[k], (i as int, 0)),
            forall|k: int|
                0 <= k < v@.len() ==> !spec_overlaps((#[trigger] v@[k]).0, v@[k].1),
            forall|k1: int, k2: int| 0 <= k1 < k2 < v@.len() ==> v@[k1] != v@[k2],
            forall|i2: int, j2: int|
                0 <= i2 < i && 0 <= j2 < n && !spec_overlaps(hands@[i2], hands@[j2])
                    ==> #[trigger] v@.contains((hands@[i2], hands@[j2])),
        decreases n - i,
    {
        let mut j: usize = 0;
        while j < n
            invariant
                i < n,
                j <= n,
                n == hands@.len(),
                org.len() == v@.len(),
                v@.len() <= i * n + j,
                forall|k: int|
                    0 <= k < v@.len() ==> 0 <= (#[trigger] org[k]).0 < n && 0 <= org[k].1 < n,
                forall|k: int|
                    0 <= k < v@.len() ==> #[trigger] v@[k] == (
                    hands@[org[k].0],
                    hands@[org[k].1],
                    ),
                forall|k: int|
                    0 <= k < v@.len() ==> lex_lt(#[trigger] org[k], (i as int, j as int)),
                forall|k: int|
                    0 <= k < v@.len() ==> !spec_overlaps((#[trigger] v@[k]).0, v@[k].1),
                forall|k1: int, k2: int| 0 <= k1 < k2 < v@.len() ==> v@[k1] != v@[k2],
                forall|i2: int, j2: int|
                    0 <= i2 < i && 0 <= j2 < n && !spec_overlaps(hands@[i2], hands@[j2])
                        ==> #[trigger] v@.contains((hands@[i2], hands@[j2])),
                forall|j2: int|
                    0 <= j2 < j && !spec_overlaps(hands@[i as int], hands@[j2])
                        ==> #[trigger] v@.contains((hands@[i as int], hands@[j2])),
            decreases n - j,
        {
            if !overlaps(&hands[i], &hands[j]) {
                let ghost old_v = v@;
                v.push((hands[i], hands[j]));
                proof {
                    org = org.push((i as int, j as int));
                    assert forall|k1: int, k2: int|
                        0 <= k1 < k2 < v@.len() implies v@[k1] != v@[k2] by {
                        if k2 == v@.len() - 1 {
                            assert(lex_lt(org[k1], (i as int, j as int)));
                        }
                    }
                }
            }
            j = j + 1;
        }
        proof {
            assert((i as int + 1) * (n as int) == i as int * (n as int) + (n as int))
                by (nonlinear_arith);
        }
        i = i + 1;
    }
    proof {
        assert forall|k: int|
            0 <= k < v@.len() implies hands@.contains((#[trigger] v@[k]).0) && hands@.contains(
            v@[k].1,
        ) && !spec_overlaps(v@[k].0, v@[k].1) by {
            assert(v@[k] == (hands@[org[k].0], hands@[org[k].1]));
            assert(hands@.contains(hands@[org[k].0]));
            assert(hands@.contains(hands@[org[k].1]));
        }
    }
    v
}

/// The interning table for hand pairs: a dense index for every legal pair,
/// with lookups in both directions.
pub struct HandPairs {
    pub pairs: Vec<(HandExplicit, HandExplicit)>,
}

impl HandPairs {
    /// The table invariant: it holds well-formed non-overlapping pairs, each
    /// exactly once, holds every such pair, and is small enough to index
    /// by u16.
    pub open spec fn wf(self) -> bool {
        &&& self.pairs@.len() <= 7056
        &&& forall|k: int|
            0 <= k < self.pairs@.len() ==> (#[trigger] self.pairs@[k]).0.well_formed()
                && self.pairs@[k].1.well_formed() && !spec_overlaps(
                self.pairs@[k].0,
                self.pairs@[k].1,
            )
        &&& forall|k1: int, k2: int|
            0 <= k1 < k2 < self.pairs@.len() ==> self.pairs@[k1] != self.pairs@[k2]
        &&& forall|h1: HandExplicit, h2: HandExplicit|
            h1.well_formed() && h2.well_formed() && !spec_overlaps(h1, h2)
                ==> #[trigger] self.pairs@.contains((h1, h2))
    }

    /// Builds the table from the full hand set.
    pub fn new() -> (r: HandPairs)
        ensures
            r.wf(),
    {
        let hs = hands();
        let ghost hs_view = hs@;
        let ps = hand_pairs(hs);
        proof {
            assert(ps@.len() <= 84 * 84);
            assert forall|k: int|
                0 <= k < ps@.len() implies (#[trigger] ps@[k]).0.well_formed()
                && ps@[k].1.well_formed() && !spec_overlaps(ps@[k].0, ps@[k].1) by {
                let i0 = choose|i0: int| 0 <= i0 < hs_view.len() && hs_view[i0] == ps@[k].0;
                let i1 = choose|i1: int| 0 <= i1 < hs_view.len() && hs_view[i1] == ps@[k].1;
                assert(hs_view[i0].well_formed());
                assert(hs_view[i1].well_formed());
            }
            assert forall|h1: HandExplicit, h2: HandExplicit|
                h1.well_formed() && h2.well_formed() && !spec_overlaps(h1, h2)
                    implies #[trigger] ps@.contains((h1, h2)) by {
                assert(hs_view.contains(h1));
                assert(hs_view.contains(h2));
                let i0 = choose|i0: int| 0 <= i0 < hs_view.len() && hs_view[i0] == h1;
                let i1 = choose|i1: int| 0 <= i1 < hs_view.len() && hs_view[i1] == h2;
                assert(ps@.contains((hs_view[i0], hs_view[i1])));
            }
        }
        HandPairs { pairs: ps }
    }

    /// The pair interned under the index `ix`.
    pub fn get_by_index(&self, ix: u16) -> (p: (HandExplicit, HandExplicit))
        requires
            (ix as int) < self.pairs@.len(),
        ensures
            p == self.pairs@[ix as int],
    {
        self.pairs[ix as usize]
    }

    /// The index under which the pair is interned.
    pub fn get_by_hand(&self, hand_pair: &(HandExplicit, HandExplicit)) -> (ix: u16)
        requires
            self.wf(),
            self.pairs@.contains(*hand_pair),
        ensures
            (ix as int) < self.pairs@.len(),
            self.pairs@[ix as int] == *hand_pair,
    {
        let n = self.pairs.len();
        let mut i: usize = 0;
        while i < n
            invariant
                i <= n,
                n == self.pairs@.len(),
                n <= 7056,
                self.pairs@.contains(*hand_pair),
                forall|k: int| 0 <= k < i ==> self.pairs@[k] != *hand_pair,
            decreases n - i,
        {
            let p = self.pairs[i];
            if p.0 == hand_pair.0 && p.1 == hand_pair.1 {
                assert(p == *hand_pair);
                return i as u16;
            }
            i = i + 1;
        }
        proof {
            let k = choose|k: int|
                0 <= k < self.pairs@.len() && self.pairs@[k] == *hand_pair;
            assert(false);
        }
        vstd::pervasive::unreached()
    }
}

} // verus!
