use vstd::prelude::*;

verus! {

/// One face of a six-sided die, totally ordered by its face value.
#[derive(Debug, Copy, Clone, PartialEq, Eq, Structural)]
pub enum Die {
    One,
    Two,
    Three,
    Four,
    Five,
    Six,
}

impl Die {
    /// The face value, 1 through 6.
    pub open spec fn spec_val(self) -> u8 {
        match self {
            Die::One => 1,
            Die::Two => 2,
            Die::Three => 3,
            Die::Four => 4,
            Die::Five => 5,
            Die::Six => 6,
        }
    }

    /// The face value as an integer.
    #[verifier::when_used_as_spec(spec_val)]
    pub fn val(self) -> (v: u8)
        ensures
            v == self.spec_val(),
    {
        match self {
            Die::One => 1,
            Die::Two => 2,
            Die::Three => 3,
            Die::Four => 4,
            Die::Five => 5,
            Die::Six => 6,
        }
    }

    /// The digit character that prints the face.
    pub open spec fn spec_digit(self) -> char {
        match self {
            Die::One => '1',
            Die::Two => '2',
            Die::Three => '3',
            Die::Four => '4',
            Die::Five => '5',
            Die::Six => '6',
        }
    }

    /// The face as the one-digit string that prints it.
    pub fn digit_str(self) -> (r: &'static str)
        ensures
            r@ == seq![self.spec_digit()],
    {
        match self {
            Die::One => {
                proof {
                    reveal_strlit("1");
                    assert("1"@ =~= seq!['1']);
                }
                "1"
            },
            Die::Two => {
                proof {
                    reveal_strlit("2");
                    assert("2"@ =~= seq!['2']);
                }
                "2"
            },
            Die::Three => {
                proof {
                    reveal_strlit("3");
                    assert("3"@ =~= seq!['3']);
                }
                "3"
            },
            Die::Four => {
                proof {
                    reveal_strlit("4");
                    assert("4"@ =~= seq!['4']);
                }
                "4"
            },
            Die::Five => {
                proof {
                    reveal_strlit("5");
                    assert("5"@ =~= seq!['5']);
                }
                "5"
            },
            Die::Six => {
                proof {
                    reveal_strlit("6");
                    assert("6"@ =~= seq!['6']);
                }
                "6"
            },
        }
    }

    /// The face whose value is `v`.
    pub fn from_val(v: u8) -> (d: Die)
        requires
            1 <= v <= 6,
        ensures
            d.spec_val() == v,
    {
        if v == 1 {
            Die::One
        } else if v == 2 {
            Die::Two
        } else if v == 3 {
            Die::Three
        } else if v == 4 {
            Die::Four
        } else if v == 5 {
            Die::Five
        } else {
            Die::Six
        }
    }
}

/// Every face value lies between 1 and 6.
pub proof fn lemma_die_val_range(d: Die)
    ensures
        1 <= d.spec_val() <= 6,
{
}

/// A face is one of the six listed faces.
pub proof fn lemma_die_cases(d: Die)
    ensures
        d == Die::One || d == Die::Two || d == Die::Three || d == Die::Four || d == Die::Five
            || d == Die::Six,
{
}

/// Two faces with the same value are the same face.
pub proof fn lemma_die_val_injective(a: Die, b: Die)
    requires
        a.spec_val() == b.spec_val(),
    ensures
        a == b,
{
}

} // verus!
