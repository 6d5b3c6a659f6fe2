use vstd::prelude::*;

verus! {

/// Largest magnitude of the numerator of a finite depth.
pub const NUM_LIMIT: i128 = 75557863725914323419136;

/// Largest denominator of a finite depth.
pub const DEN_LIMIT: i128 = 35184372088832;

/// `|a * b| < 2^121` for a numerator `a` and a denominator `b` in range.
proof fn lemma_cross_product_bound(a: int, b: int)
    requires
        -NUM_LIMIT <= a <= NUM_LIMIT,
        0 < b <= DEN_LIMIT,
    ensures
        -(NUM_LIMIT * DEN_LIMIT) <= a * b <= NUM_LIMIT * DEN_LIMIT,
{
    assert(-(NUM_LIMIT * DEN_LIMIT) <= a * b <= NUM_LIMIT * DEN_LIMIT) by (nonlinear_arith)
        requires
            -NUM_LIMIT <= a <= NUM_LIMIT,
            0 < b <= DEN_LIMIT,
    ;
}

/// A depth-buffer value: nothing drawn yet (infinitely far), or the exact
/// rational depth `num / den` of the nearest fragment drawn so far.
#[derive(Debug, Clone, Copy, PartialEq, Eq, Structural)]
pub enum Depth {
    Infinite,
    Finite { num: i128, den: i128 },
}

impl Depth {
    /// A finite depth has a positive denominator and both parts within their limits.
    pub open spec fn wf(&self) -> bool {
        match *self {
            Depth::Infinite => true,
            Depth::Finite { num, den } => -NUM_LIMIT <= num <= NUM_LIMIT && 0 < den <= DEN_LIMIT,
        }
    }

    /// `self` is strictly nearer than `other`: lower depth wins, and every finite
    /// depth is nearer than infinity.
    pub open spec fn nearer_than(&self, other: Depth) -> bool {
        match (*self, other) {
            (Depth::Finite { num: n1, den: d1 }, Depth::Infinite) => true,
            (Depth::Finite { num: n1, den: d1 }, Depth::Finite { num: n2, den: d2 }) => n1 * d2
                < n2 * d1,
            _ => false,
        }
    }

    /// `self` is the finite depth `z`.
    pub open spec fn has_value(&self, z: int) -> bool {
        match *self {
            Depth::Infinite => false,
            Depth::Finite { num, den } => num == z * den,
        }
    }

    pub fn is_nearer_than(&self, other: &Depth) -> (r: bool)
        requires
            self.wf(),
            other.wf(),
        ensures
            r == self.nearer_than(*other),
    {
        match (*self, *other) {
            (Depth::Finite { num: n1, den: d1 }, Depth::Infinite) => true,
            (Depth::Finite { num: n1, den: d1 }, Depth::Finite { num: n2, den: d2 }) => {
                proof {
                    lemma_cross_product_bound(n1 as int, d2 as int);
                    lemma_cross_product_bound(n2 as int, d1 as int);
                }
                n1 * d2 < n2 * d1
            },
            _ => false,
        }
    }

    /// Whether `self` is exactly the finite depth `z`.
    pub fn equals_int(&self, z: i32) -> (r: bool)
        requires
            self.wf(),
        ensures
            r == self.has_value(z as int),
    {
        match *self {
            Depth::Infinite => false,
            Depth::Finite { num, den } => {
                proof {
                    assert(-(2147483648 * DEN_LIMIT) <= z * den <= 2147483648 * DEN_LIMIT)
                        by (nonlinear_arith)
                        requires
                            -2147483648 <= z <= 2147483647,
                            0 < den <= DEN_LIMIT,
                    ;
                }
                num == z as i128 * den
            },
        }
    }

    pub fn is_infinite(&self) -> (r: bool)
        ensures
            r == (*self == Depth::Infinite),
    {
        match *self {
            Depth::Infinite => true,
            Depth::Finite { .. } => false,
        }
    }
}

} // verus!
