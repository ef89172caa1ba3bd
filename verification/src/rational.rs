use vstd::prelude::*;

verus! {

/// A ratio `num / den` of mathematical integers: the model in which every
/// contract of this crate states its quotients, so that none is rounded.
pub struct Rational {
    pub num: int,
    pub den: int,
}

impl Rational {
    /// The denominator is positive.
    pub open spec fn wf(self) -> bool {
        self.den > 0
    }

    pub open spec fn of_int(n: int) -> Rational {
        Rational { num: n, den: 1 }
    }

    /// `self <= other`, for well-formed ratios.
    pub open spec fn le(self, other: Rational) -> bool {
        self.num * other.den <= other.num * self.den
    }

    /// `self < other`, for well-formed ratios.
    pub open spec fn lt(self, other: Rational) -> bool {
        self.num * other.den < other.num * self.den
    }

    /// The two ratios denote the same number.
    pub open spec fn same(self, other: Rational) -> bool {
        self.num * other.den == other.num * self.den
    }

    /// The smaller of the two; `self` where they denote the same number.
    pub open spec fn min(self, other: Rational) -> Rational {
        if self.le(other) {
            self
        } else {
            other
        }
    }

    pub open spec fn plus(self, other: Rational) -> Rational {
        Rational { num: self.num * other.den + other.num * self.den, den: self.den * other.den }
    }

    pub open spec fn minus(self, other: Rational) -> Rational {
        Rational { num: self.num * other.den - other.num * self.den, den: self.den * other.den }
    }

    pub open spec fn times(self, other: Rational) -> Rational {
        Rational { num: self.num * other.num, den: self.den * other.den }
    }

    pub open spec fn negated(self) -> Rational {
        Rational { num: -self.num, den: self.den }
    }

    pub open spec fn halved(self) -> Rational {
        Rational { num: self.num, den: 2 * self.den }
    }

    /// `1 / self` with a positive denominator, for a ratio other than zero.
    pub open spec fn inverse(self) -> Rational {
        if self.num > 0 {
            Rational { num: self.den, den: self.num }
        } else {
            Rational { num: -self.den, den: -self.num }
        }
    }
}

/// An exact quotient of two machine integers, never rounded.
#[derive(Clone, Copy, Debug, PartialEq, Eq, Structural)]
pub struct Frac {
    pub num: i128,
    pub den: i128,
}

impl View for Frac {
    type V = Rational;

    open spec fn view(&self) -> Rational {
        Rational { num: self.num as int, den: self.den as int }
    }
}

impl Frac {
    /// The denominator is positive.
    pub open spec fn wf(&self) -> bool {
        self.den > 0
    }
}

/// The order of ratios is transitive.
pub proof fn lemma_le_transitive(a: Rational, b: Rational, c: Rational)
    requires
        a.wf(),
        b.wf(),
        c.wf(),
        a.le(b),
        b.le(c),
    ensures
        a.le(c),
{
    assert(a.num * c.den <= c.num * a.den) by (nonlinear_arith)
        requires
            a.den > 0,
            b.den > 0,
            c.den > 0,
            a.num * b.den <= b.num * a.den,
            b.num * c.den <= c.num * b.den,
    ;
}

} // verus!
