//! Unsigned numbers of 256 bits.

use vstd::prelude::*;

verus! {

/// An unsigned number in four digits to the base of two to the 64th, the least
/// significant first.
#[derive(Clone, Copy, Debug)]
pub struct Wide {
    a: u64,
    b: u64,
    c: u64,
    d: u64,
}

/// Two to the 64th.
pub open spec fn base() -> int {
    0x1_0000_0000_0000_0000
}

/// What four digits spell.
pub open spec fn spelled(a: int, b: int, c: int, d: int) -> int {
    a + base() * (b + base() * (c + base() * d))
}

/// One more than the largest number.
pub open spec fn limit() -> int {
    base() * base() * base() * base()
}

impl View for Wide {
    type V = int;

    closed spec fn view(&self) -> int {
        spelled(self.a as int, self.b as int, self.c as int, self.d as int)
    }
}

/// The digits of a sum and the digits that are kept of it, when every carry goes
/// one place up.
proof fn carries_cancel(
    p: (int, int, int, int),
    q: (int, int, int, int),
    carry: (int, int, int, int),
)
    requires
        p.0 == q.0 + base() * carry.0,
        p.1 + carry.0 == q.1 + base() * carry.1,
        p.2 + carry.1 == q.2 + base() * carry.2,
        p.3 + carry.2 == q.3 + base() * carry.3,
    ensures
        spelled(p.0, p.1, p.2, p.3) == spelled(q.0, q.1, q.2, q.3) + limit() * carry.3,
{
    let x = base();
    let k = carry.3;
    let top = p.2 + x * p.3;
    assert(top == q.2 + x * q.3 + x * x * k - carry.1) by (nonlinear_arith)
        requires
            top == p.2 + x * p.3,
            p.2 + carry.1 == q.2 + x * carry.2,
            p.3 + carry.2 == q.3 + x * k,
    ;
    let mid = p.1 + x * top;
    let kept = q.2 + x * q.3;
    assert(mid == q.1 + x * kept + x * x * x * k - carry.0) by (nonlinear_arith)
        requires
            mid == p.1 + x * top,
            top == kept + x * x * k - carry.1,
            p.1 + carry.0 == q.1 + x * carry.1,
    ;
    let rest = q.1 + x * kept;
    assert(p.0 + x * mid == q.0 + x * rest + x * x * x * x * k) by (nonlinear_arith)
        requires
            mid == rest + x * x * x * k - carry.0,
            p.0 == q.0 + x * carry.0,
    ;
}

/// One step of a multiplication: the product and the carry fit two digits.
fn digit_product(x: u64, k: u64, carry: u64) -> (r: (u64, u64))
    ensures
        x as int * k as int + carry as int == r.0 as int + base() * r.1 as int,
{
    proof {
        let u = x as int;
        let v = k as int;
        assert(0 <= u * v <= 0xffff_ffff_ffff_fffe_0000_0000_0000_0001) by (nonlinear_arith)
            requires
                0 <= u <= 0xffff_ffff_ffff_ffff,
                0 <= v <= 0xffff_ffff_ffff_ffff,
        ;
    }
    let t: u128 = (x as u128) * (k as u128) + carry as u128;
    ((t % 0x1_0000_0000_0000_0000) as u64, (t / 0x1_0000_0000_0000_0000) as u64)
}

/// One step of an addition.
fn digit_sum(x: u64, y: u64, carry: u64) -> (r: (u64, u64))
    requires
        carry <= 1,
    ensures
        x as int + y as int + carry as int == r.0 as int + base() * r.1 as int,
        r.1 <= 1,
{
    let t: u128 = (x as u128) + (y as u128) + carry as u128;
    ((t % 0x1_0000_0000_0000_0000) as u64, (t / 0x1_0000_0000_0000_0000) as u64)
}

/// One step of a subtraction.
fn digit_difference(x: u64, y: u64, borrow: u64) -> (r: (u64, u64))
    requires
        borrow <= 1,
    ensures
        x as int - y as int - borrow as int == r.0 as int - base() * r.1 as int,
        r.1 <= 1,
{
    let taken: u128 = (y as u128) + borrow as u128;
    if (x as u128) < taken {
        ((0x1_0000_0000_0000_0000 + x as u128 - taken) as u64, 1)
    } else {
        ((x as u128 - taken) as u64, 0)
    }
}

impl Wide {
    /// A number.
    pub fn of(x: u128) -> (r: Wide)
        ensures
            r@ == x,
    {
        Wide {
            a: (x % 0x1_0000_0000_0000_0000) as u64,
            b: (x / 0x1_0000_0000_0000_0000) as u64,
            c: 0,
            d: 0,
        }
    }

    /// Every number is within the range.
    pub proof fn in_range(self)
        ensures
            0 <= self@ < limit(),
    {
    }

    /// A sum.
    pub fn plus(&self, other: &Wide) -> (r: Wide)
        requires
            self@ + other@ < limit(),
        ensures
            r@ == self@ + other@,
    {
        let (a, c0) = digit_sum(self.a, other.a, 0);
        let (b, c1) = digit_sum(self.b, other.b, c0);
        let (c, c2) = digit_sum(self.c, other.c, c1);
        let (d, c3) = digit_sum(self.d, other.d, c2);
        Wide { a, b, c, d }
    }

    /// A difference.
    pub fn minus(&self, other: &Wide) -> (r: Wide)
        requires
            other@ <= self@,
        ensures
            r@ == self@ - other@,
    {
        let (a, b0) = digit_difference(self.a, other.a, 0);
        let (b, b1) = digit_difference(self.b, other.b, b0);
        let (c, b2) = digit_difference(self.c, other.c, b1);
        let (d, b3) = digit_difference(self.d, other.d, b2);
        Wide { a, b, c, d }
    }

    /// Whether a number is at most another.
    pub fn at_most(&self, other: &Wide) -> (r: bool)
        ensures
            r == (self@ <= other@),
    {
        if self.d != other.d {
            return self.d < other.d;
        }
        if self.c != other.c {
            return self.c < other.c;
        }
        if self.b != other.b {
            return self.b < other.b;
        }
        self.a <= other.a
    }

    /// A product.
    pub fn times(&self, k: u64) -> (r: Wide)
        requires
            self@ * k < limit(),
        ensures
            r@ == self@ * k,
    {
        let (a, c0) = digit_product(self.a, k, 0);
        let (b, c1) = digit_product(self.b, k, c0);
        let (c, c2) = digit_product(self.c, k, c1);
        let (d, c3) = digit_product(self.d, k, c2);
        let r = Wide { a, b, c, d };
        proof {
            let v = k as int;
            let p = (self.a * v, self.b * v, self.c * v, self.d * v);
            carries_cancel(
                p,
                (a as int, b as int, c as int, d as int),
                (c0 as int, c1 as int, c2 as int, c3 as int),
            );
            let (x, y, z, w) = (self.a as int, self.b as int, self.c as int, self.d as int);
            assert(spelled(x, y, z, w) * v == spelled(x * v, y * v, z * v, w * v))
                by (nonlinear_arith);
            r.in_range();
            assert(c3 == 0);
        }
        r
    }

    /// A product with a number of two digits.
    pub fn times_double(&self, k: u128) -> (r: Wide)
        requires
            self@ * k < limit(),
        ensures
            r@ == self@ * k,
    {
        let lo: u64 = (k % 0x1_0000_0000_0000_0000) as u64;
        let hi: u64 = (k / 0x1_0000_0000_0000_0000) as u64;
        proof {
            self.in_range();
            let v = self@;
            assert(v * k == v * lo + base() * (v * hi)) by (nonlinear_arith)
                requires
                    k == lo + base() * hi,
            ;
            assert(v * lo >= 0 && v * hi >= 0) by (nonlinear_arith)
                requires
                    v >= 0,
                    lo >= 0,
                    hi >= 0,
            ;
        }
        let low = self.times(lo);
        let high = self.times(hi);
        assert(high.d == 0);
        let shifted = Wide { a: 0, b: high.a, c: high.b, d: high.c };
        assert(shifted@ == base() * high@);
        low.plus(&shifted)
    }
}

} // verus!
