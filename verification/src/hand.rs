use vstd::prelude::*;

use crate::die::Die;
use crate::die::lemma_die_cases;
use vstd::string::StringExecFns;

verus! {

/// A player's hand in one column: up to three dice, stored densely in the
/// first slots and non-decreasing by face value when well formed.
#[derive(Debug, Copy, Clone, PartialEq, Eq, Structural)]
pub struct HandExplicit {
    pub die_1: Option<Die>,
    pub die_2: Option<Die>,
    pub die_3: Option<Die>,
}

impl HandExplicit {
    /// The value of an optional die: its face value, or 0 for an empty slot.
    pub open spec fn spec_val(die: Option<Die>) -> u8 {
        match die {
            None => 0,
            Some(d) => d.spec_val(),
        }
    }

    pub open spec fn spec_val_1(self) -> u8 {
        Self::spec_val(self.die_1)
    }

    pub open spec fn spec_val_2(self) -> u8 {
        Self::spec_val(self.die_2)
    }

    pub open spec fn spec_val_3(self) -> u8 {
        Self::spec_val(self.die_3)
    }

    /// How many dice the hand holds.
    pub open spec fn spec_len(self) -> u8 {
        if self.die_3 is Some {
            3
        } else if self.die_2 is Some {
            2
        } else if self.die_1 is Some {
            1
        } else {
            0
        }
    }

    /// Whether some assigned slot holds the face `die`.
    pub open spec fn spec_has(self, die: Die) -> bool {
        self.die_1 == Some(die) || self.die_2 == Some(die) || self.die_3 == Some(die)
    }

    /// Whether all three slots are assigned.
    pub open spec fn spec_is_full(self) -> bool {
        self.die_3 is Some
    }

    /// The hand invariant: dice occupy the first slots, in non-decreasing
    /// order of face value.
    pub open spec fn well_formed(self) -> bool {
        &&& self.die_2 is Some ==> self.die_1 is Some
        &&& self.die_3 is Some ==> self.die_2 is Some
        &&& self.die_2 is Some ==> self.spec_val_1() <= self.spec_val_2()
        &&& self.die_3 is Some ==> self.spec_val_2() <= self.spec_val_3()
    }

    /// The score: the sum of the face values, plus the square of the shared
    /// value for each pair of equal slots.
    pub open spec fn spec_score(self) -> int {
        self.spec_val_1() + self.spec_val_2() + self.spec_val_3()
            + (if self.die_1 == self.die_2 { self.spec_val_1() * self.spec_val_1() } else { 0 })
            + (if self.die_2 == self.die_3 { self.spec_val_2() * self.spec_val_2() } else { 0 })
            + (if self.die_1 == self.die_3 { self.spec_val_1() * self.spec_val_1() } else { 0 })
    }

    /// The hand with no dice.
    pub fn empty() -> (h: HandExplicit)
        ensures
            h == (HandExplicit { die_1: None, die_2: None, die_3: None }),
    {
        HandExplicit { die_1: None, die_2: None, die_3: None }
    }

    /// A hand holding a single die.
    pub fn new1(die_1: Die) -> (h: HandExplicit)
        ensures
            h == (HandExplicit { die_1: Some(die_1), die_2: None, die_3: None }),
    {
        HandExplicit { die_1: Some(die_1), die_2: None, die_3: None }
    }

    /// A hand holding two dice; the generator only calls this with
    /// `die_1 <= die_2`, which is what makes the hand well formed.
    pub fn new2(die_1: Die, die_2: Die) -> (h: HandExplicit)
        ensures
            h == (HandExplicit { die_1: Some(die_1), die_2: Some(die_2), die_3: None }),
    {
        HandExplicit { die_1: Some(die_1), die_2: Some(die_2), die_3: None }
    }

    /// A hand holding three dice; the generator only calls this with
    /// `die_1 <= die_2 <= die_3`, which is what makes the hand well formed.
    pub fn new(die_1: Die, die_2: Die, die_3: Die) -> (h: HandExplicit)
        ensures
            h == (HandExplicit { die_1: Some(die_1), die_2: Some(die_2), die_3: Some(die_3) }),
    {
        HandExplicit { die_1: Some(die_1), die_2: Some(die_2), die_3: Some(die_3) }
    }

    /// The value of an optional die: its face value, or 0 for an empty slot.
    pub fn val(die: Option<Die>) -> (v: u8)
        ensures
            v == Self::spec_val(die),
    {
        match die {
            None => 0,
            Some(d) => d.val(),
        }
    }

    pub fn val_1(&self) -> (v: u8)
        ensures
            v == self.spec_val_1(),
    {
        Self::val(self.die_1)
    }

    pub fn val_2(&self) -> (v: u8)
        ensures
            v == self.spec_val_2(),
    {
        Self::val(self.die_2)
    }

    pub fn val_3(&self) -> (v: u8)
        ensures
            v == self.spec_val_3(),
    {
        Self::val(self.die_3)
    }

    pub fn die_1(&self) -> (d: Option<Die>)
        ensures
            d == self.die_1,
    {
        self.die_1
    }

    pub fn die_2(&self) -> (d: Option<Die>)
        ensures
            d == self.die_2,
    {
        self.die_2
    }

    pub fn die_3(&self) -> (d: Option<Die>)
        ensures
            d == self.die_3,
    {
        self.die_3
    }

    /// Whether some assigned slot holds the face `die`.
    pub fn has(&self, die: Die) -> (r: bool)
        ensures
            r == self.spec_has(die),
    {
        self.die_1 == Some(die) || self.die_2 == Some(die) || self.die_3 == Some(die)
    }

    /// Whether all three slots are assigned.
    pub fn is_full(&self) -> (r: bool)
        ensures
            r == self.spec_is_full(),
    {
        self.die_3.is_some()
    }

    /// How many dice the hand holds.
    pub fn len(&self) -> (n: u8)
        ensures
            n == self.spec_len(),
    {
        if self.die_3.is_some() {
            3
        } else if self.die_2.is_some() {
            2
        } else if self.die_1.is_some() {
            1
        } else {
            0
        }
    }

    /// The score of the hand.
    pub fn score(&self) -> (s: u8)
        ensures
            s == self.spec_score(),
    {
        proof {
            lemma_slot_val_range(self.die_1);
            lemma_slot_val_range(self.die_2);
            lemma_slot_val_range(self.die_3);
        }
        let v1 = self.val_1();
        let v2 = self.val_2();
        let v3 = self.val_3();
        assert(v1 <= 6 && v2 <= 6 && v3 <= 6);
        assert(v1 * v1 <= 36) by (nonlinear_arith)
            requires
                v1 <= 6,
        ;
        assert(v2 * v2 <= 36) by (nonlinear_arith)
            requires
                v2 <= 6,
        ;
        let abc = v1 + v2 + v3;
        let ab: u8 = if self.die_1 == self.die_2 {
            v1 * v1
        } else {
            0
        };
        let bc: u8 = if self.die_2 == self.die_3 {
            v2 * v2
        } else {
            0
        };
        let ac: u8 = if self.die_1 == self.die_3 {
            v1 * v1
        } else {
            0
        };
        abc + ab + bc + ac
    }
}

impl HandExplicit {
    /// The characters that print the hand: the assigned digits between
    /// parentheses.
    pub open spec fn spec_display(self) -> Seq<char> {
        seq!['('] + (match self.die_1 {
            Some(d) => seq![d.spec_digit()],
            None => Seq::empty(),
        }) + (match self.die_2 {
            Some(d) => seq![d.spec_digit()],
            None => Seq::empty(),
        }) + (match self.die_3 {
            Some(d) => seq![d.spec_digit()],
            None => Seq::empty(),
        }) + seq![')']
    }

    /// Renders the hand, for example as `(123)` for a full hand or `()` for
    /// the empty one.
    pub fn to_display_string(&self) -> (s: String)
        ensures
            s@ == self.spec_display(),
    {
        proof {
            reveal_strlit("(");
            reveal_strlit(")");
            assert("("@ =~= seq!['(']);
            assert(")"@ =~= seq![')']);
        }
        let mut s = String::new();
        s.append("(");
        match self.die_1 {
            Some(d) => s.append(d.digit_str()),
            None => (),
        }
        match self.die_2 {
            Some(d) => s.append(d.digit_str()),
            None => (),
        }
        match self.die_3 {
            Some(d) => s.append(d.digit_str()),
            None => (),
        }
        s.append(")");
        proof {
            assert(s@ =~= self.spec_display());
        }
        s
    }
}

/// The value of any slot is at most 6.
pub proof fn lemma_slot_val_range(die: Option<Die>)
    ensures
        HandExplicit::spec_val(die) <= 6,
{
}

/// Whether two hands share at least one die value.
pub open spec fn spec_overlaps(hand_1: HandExplicit, hand_2: HandExplicit) -> bool {
    exists|d: Die| hand_1.spec_has(d) && hand_2.spec_has(d)
}

/// Whether two hands share at least one die value, checked over the six faces.
pub fn overlaps(hand_1: &HandExplicit, hand_2: &HandExplicit) -> (r: bool)
    ensures
        r == spec_overlaps(*hand_1, *hand_2),
{
    let r = (hand_1.has(Die::One) && hand_2.has(Die::One))
        || (hand_1.has(Die::Two) && hand_2.has(Die::Two))
        || (hand_1.has(Die::Three) && hand_2.has(Die::Three))
        || (hand_1.has(Die::Four) && hand_2.has(Die::Four))
        || (hand_1.has(Die::Five) && hand_2.has(Die::Five))
        || (hand_1.has(Die::Six) && hand_2.has(Die::Six));
    proof {
        if spec_overlaps(*hand_1, *hand_2) {
            let d = choose|d: Die| hand_1.spec_has(d) && hand_2.spec_has(d);
            match d {
                Die::One => assert(hand_1.spec_has(Die::One) && hand_2.spec_has(Die::One)),
                Die::Two => assert(hand_1.spec_has(Die::Two) && hand_2.spec_has(Die::Two)),
                Die::Three => assert(hand_1.spec_has(Die::Three) && hand_2.spec_has(Die::Three)),
                Die::Four => assert(hand_1.spec_has(Die::Four) && hand_2.spec_has(Die::Four)),
                Die::Five => assert(hand_1.spec_has(Die::Five) && hand_2.spec_has(Die::Five)),
                Die::Six => assert(hand_1.spec_has(Die::Six) && hand_2.spec_has(Die::Six)),
            }
        }
    }
    r
}

/// Sharing a die value is symmetric: a pair that does not overlap still does
/// not overlap after the two hands are swapped.
pub proof fn lemma_overlaps_symmetric(hand_1: HandExplicit, hand_2: HandExplicit)
    ensures
        spec_overlaps(hand_1, hand_2) == spec_overlaps(hand_2, hand_1),
{
    if spec_overlaps(hand_1, hand_2) {
        let d = choose|d: Die| hand_1.spec_has(d) && hand_2.spec_has(d);
        assert(hand_2.spec_has(d) && hand_1.spec_has(d));
    }
    if spec_overlaps(hand_2, hand_1) {
        let d = choose|d: Die| hand_2.spec_has(d) && hand_1.spec_has(d);
        assert(hand_1.spec_has(d) && hand_2.spec_has(d));
    }
}

/// A hand overlaps itself exactly when it is non-empty.
pub proof fn lemma_self_overlap(h: HandExplicit)
    ensures
        spec_overlaps(h, h) <==> h.spec_len() > 0,
{
    if h.spec_len() > 0 {
        if h.die_3 is Some {
            assert(h.spec_has(h.die_3->0));
        } else if h.die_2 is Some {
            assert(h.spec_has(h.die_2->0));
        } else {
            assert(h.spec_has(h.die_1->0));
        }
    }
}

/// 1 when the condition holds, 0 otherwise.
pub open spec fn b2i(b: bool) -> int {
    if b {
        1
    } else {
        0
    }
}

/// How many of the six die values the hand holds.
pub open spec fn num_values_present(h: HandExplicit) -> int {
    b2i(h.spec_has(Die::One)) + b2i(h.spec_has(Die::Two)) + b2i(h.spec_has(Die::Three))
        + b2i(h.spec_has(Die::Four)) + b2i(h.spec_has(Die::Five)) + b2i(h.spec_has(Die::Six))
}

/// Whether no two assigned slots hold the same face.
pub open spec fn values_distinct(h: HandExplicit) -> bool {
    &&& h.die_1 is Some && h.die_2 is Some ==> h.die_1 != h.die_2
    &&& h.die_2 is Some && h.die_3 is Some ==> h.die_2 != h.die_3
    &&& h.die_1 is Some && h.die_3 is Some ==> h.die_1 != h.die_3
}

/// A well-formed hand never holds more distinct die values than dice.
pub proof fn lemma_has_count_at_most(h: HandExplicit)
    requires
        h.well_formed(),
    ensures
        num_values_present(h) <= h.spec_len(),
{
    if h.die_1 is Some {
        lemma_die_cases(h.die_1->0);
    }
    if h.die_2 is Some {
        lemma_die_cases(h.die_2->0);
    }
    if h.die_3 is Some {
        lemma_die_cases(h.die_3->0);
    }
}

/// A well-formed hand whose assigned faces are pairwise distinct holds
/// exactly as many distinct die values as it holds dice.
pub proof fn lemma_has_count(h: HandExplicit)
    requires
        h.well_formed(),
        values_distinct(h),
    ensures
        num_values_present(h) == h.spec_len(),
{
    if h.die_1 is Some {
        lemma_die_cases(h.die_1->0);
    }
    if h.die_2 is Some {
        lemma_die_cases(h.die_2->0);
    }
    if h.die_3 is Some {
        lemma_die_cases(h.die_3->0);
    }
}

} // verus!
