use vstd::prelude::*;

verus! {

/// Clamps an integer to the range of a trit, `[-1, 1]`.
pub open spec fn clamp(v: int) -> int {
    if v < -1 {
        -1
    } else if v > 1 {
        1
    } else {
        v
    }
}

/// A ternary value: Negative (-1), Zero (0), or Positive (+1).
#[derive(Clone, Copy, Debug, PartialEq, Eq, Hash, Structural)]
pub enum Trit {
    Neg,
    Zero,
    Pos,
}

impl Trit {
    /// The integer that the trit stands for.
    pub open spec fn value(self) -> int {
        match self {
            Trit::Neg => -1,
            Trit::Zero => 0,
            Trit::Pos => 1,
        }
    }

    /// The trit that stands for `v`, if `v` is -1, 0 or 1.
    pub open spec fn from_value(v: int) -> Option<Trit> {
        if v == -1 {
            Some(Trit::Neg)
        } else if v == 0 {
            Some(Trit::Zero)
        } else if v == 1 {
            Some(Trit::Pos)
        } else {
            None
        }
    }

    /// The sign of an integer as a trit.
    pub open spec fn sign(v: int) -> Trit {
        if v < 0 {
            Trit::Neg
        } else if v == 0 {
            Trit::Zero
        } else {
            Trit::Pos
        }
    }

    /// Balanced ternary negation.
    pub open spec fn opposite(self) -> Trit {
        match self {
            Trit::Neg => Trit::Pos,
            Trit::Zero => Trit::Zero,
            Trit::Pos => Trit::Neg,
        }
    }

    pub fn to_i8(self) -> (r: i8)
        ensures
            r == self.value(),
    {
        match self {
            Trit::Neg => -1,
            Trit::Zero => 0,
            Trit::Pos => 1,
        }
    }

    pub fn from_i8(v: i8) -> (r: Option<Trit>)
        ensures
            r == Trit::from_value(v as int),
    {
        if v == -1 {
            Some(Trit::Neg)
        } else if v == 0 {
            Some(Trit::Zero)
        } else if v == 1 {
            Some(Trit::Pos)
        } else {
            None
        }
    }

    /// Balanced ternary NOT (swap pos/neg).
    pub fn ternary_not(self) -> (r: Trit)
        ensures
            r == self.opposite(),
            r.value() == -self.value(),
    {
        match self {
            Trit::Neg => Trit::Pos,
            Trit::Zero => Trit::Zero,
            Trit::Pos => Trit::Neg,
        }
    }
}

/// Clamps a small integer to the trit range `[-1, 1]`.
pub fn clamp_trit(v: i8) -> (r: i8)
    ensures
        r == clamp(v as int),
{
    if v < -1 {
        -1
    } else if v > 1 {
        1
    } else {
        v
    }
}

/// Reading a trit as an integer and back gives the trit again, and a
/// conversion from an integer that succeeds gives a trit of that value.
pub proof fn lemma_value_round_trip(t: Trit, v: int)
    ensures
        Trit::from_value(t.value()) == Some(t),
        Trit::from_value(v) matches Some(u) ==> u.value() == v,
        Trit::from_value(v) is Some <==> -1 <= v <= 1,
{
}

/// The integers the trits stand for, and the sign of an integer: `Pos` for
/// positive, `Neg` for negative, `Zero` for zero.
pub proof fn lemma_trit_values(v: int)
    ensures
        Trit::Neg.value() == -1,
        Trit::Zero.value() == 0,
        Trit::Pos.value() == 1,
        Trit::sign(v) == Trit::Pos <==> v > 0,
        Trit::sign(v) == Trit::Neg <==> v < 0,
        Trit::sign(v) == Trit::Zero <==> v == 0,
        Trit::Neg.opposite() == Trit::Pos && Trit::Zero.opposite() == Trit::Zero
            && Trit::Pos.opposite() == Trit::Neg,
{
}

/// Negation is an involution and negates the value.
pub proof fn lemma_opposite_involution(t: Trit)
    ensures
        t.opposite().opposite() == t,
        t.opposite().value() == -t.value(),
{
}

/// The sign of a value in `[-1, 1]` is the trit of that value; the sign of a
/// clamped value is the sign of the value.
pub proof fn lemma_sign_of_clamp(v: int)
    ensures
        Trit::sign(clamp(v)) == Trit::sign(v),
        -1 <= v <= 1 ==> Trit::from_value(v) == Some(Trit::sign(v)),
        Trit::sign(v).value() == clamp(v),
{
}

} // verus!
