use vstd::prelude::*;

verus! {

/// Number of values a `u128` can take, as a mathematical constant.
pub open spec fn pow128() -> nat {
    0x100000000000000000000000000000000nat
}

/// Number of values a 256-bit unsigned integer can take.
pub open spec fn pow256() -> nat {
    pow128() * pow128()
}

/// An unsigned 256-bit integer, stored as a low and a high 128-bit half.
#[derive(Clone, Copy, Debug, PartialEq, Eq, Structural)]
pub struct U256 {
    pub lo: u128,
    pub hi: u128,
}

impl U256 {
    /// The mathematical value of the number.
    pub open spec fn as_nat(self) -> nat {
        (self.lo + self.hi * pow128()) as nat
    }

    pub proof fn lemma_as_nat_bound(self)
        ensures
            self.as_nat() < pow256(),
    {
        assert(self.hi * pow128() <= (pow128() - 1) * pow128()) by (nonlinear_arith)
            requires
                self.hi < pow128(),
        ;
    }

    /// Two values with the same mathematical value are equal.
    pub proof fn lemma_as_nat_injective(a: U256, b: U256)
        requires
            a.as_nat() == b.as_nat(),
        ensures
            a == b,
    {
        assert(a.hi == b.hi) by (nonlinear_arith)
            requires
                a.lo + a.hi * pow128() == b.lo + b.hi * pow128(),
                a.lo < pow128(),
                b.lo < pow128(),
                a.hi >= 0,
                b.hi >= 0,
        ;
    }

    pub fn zero() -> (r: U256)
        ensures
            r.as_nat() == 0,
    {
        U256 { lo: 0, hi: 0 }
    }

    pub fn one() -> (r: U256)
        ensures
            r.as_nat() == 1,
    {
        U256 { lo: 1, hi: 0 }
    }

    pub fn from_u128(n: u128) -> (r: U256)
        ensures
            r.as_nat() == n,
    {
        U256 { lo: n, hi: 0 }
    }

    pub fn from_u64(n: u64) -> (r: U256)
        ensures
            r.as_nat() == n,
    {
        U256 { lo: n as u128, hi: 0 }
    }

    pub fn is_zero(&self) -> (r: bool)
        ensures
            r == (self.as_nat() == 0),
    {
        proof {
            if self.hi != 0 {
                assert(self.hi * pow128() >= pow128()) by (nonlinear_arith)
                    requires
                        self.hi >= 1,
                ;
            }
            assert(self.hi == 0 ==> self.as_nat() == self.lo);
        }
        self.lo == 0 && self.hi == 0
    }

    /// The lowest 64 bits of the number.
    pub fn low_u64(&self) -> (r: u64)
        ensures
            r as nat == self.as_nat() % 0x10000000000000000,
    {
        proof {
            lemma_mod_split(self.lo as nat, self.hi as nat, 0x10000000000000000);
        }
        (self.lo % 0x10000000000000000) as u64
    }

    /// The lowest 128 bits of the number.
    pub fn low_u128(&self) -> (r: u128)
        ensures
            r as nat == self.as_nat() % pow128(),
    {
        proof {
            lemma_mod_split(self.lo as nat, self.hi as nat, pow128());
        }
        self.lo
    }

    /// The value as a `u128`, when it fits.
    pub fn try_to_u128(&self) -> (r: Option<u128>)
        ensures
            self.as_nat() < pow128() ==> r == Some((self.as_nat() as u128)),
            self.as_nat() >= pow128() ==> r is None,
    {
        proof {
            if self.hi != 0 {
                assert(self.hi * pow128() >= pow128()) by (nonlinear_arith)
                    requires
                        self.hi >= 1,
                ;
            }
        }
        if self.hi == 0 {
            Some(self.lo)
        } else {
            None
        }
    }

    /// Addition modulo `pow256`, with the carry as a flag.
    pub fn overflowing_add(self, other: U256) -> (r: (U256, bool))
        ensures
            r.0.as_nat() + (if r.1 {
                pow256()
            } else {
                0
            }) == self.as_nat() + other.as_nat(),
    {
        let (lo, c0) = add_with_carry(self.lo, other.lo, false);
        let (hi, c1) = add_with_carry(self.hi, other.hi, c0);
        proof {
            lemma_combine_carry(
                self.lo as nat,
                self.hi as nat,
                other.lo as nat,
                other.hi as nat,
                lo as nat,
                hi as nat,
                c0,
                c1,
            );
        }
        (U256 { lo, hi }, c1)
    }

    /// Subtraction modulo `pow256`, with the borrow as a flag.
    pub fn overflowing_sub(self, other: U256) -> (r: (U256, bool))
        ensures
            self.as_nat() + (if r.1 {
                pow256()
            } else {
                0
            }) == other.as_nat() + r.0.as_nat(),
    {
        let (lo, b0) = sub_with_borrow(self.lo, other.lo, false);
        let (hi, b1) = sub_with_borrow(self.hi, other.hi, b0);
        proof {
            lemma_combine_carry(
                other.lo as nat,
                other.hi as nat,
                lo as nat,
                hi as nat,
                self.lo as nat,
                self.hi as nat,
                b0,
                b1,
            );
        }
        (U256 { lo, hi }, b1)
    }

    /// Addition that fails on overflow.
    pub fn checked_add(self, other: U256) -> (r: Option<U256>)
        ensures
            self.as_nat() + other.as_nat() < pow256() ==> (r matches Some(v) && v.as_nat()
                == self.as_nat() + other.as_nat()),
            self.as_nat() + other.as_nat() >= pow256() ==> r is None,
    {
        proof {
            self.lemma_as_nat_bound();
            other.lemma_as_nat_bound();
        }
        let (v, c) = self.overflowing_add(other);
        if c {
            None
        } else {
            Some(v)
        }
    }

    /// Subtraction that fails when the result would be negative.
    pub fn checked_sub(self, other: U256) -> (r: Option<U256>)
        ensures
            self.as_nat() >= other.as_nat() ==> (r matches Some(v) && v.as_nat() + other.as_nat()
                == self.as_nat()),
            self.as_nat() < other.as_nat() ==> r is None,
    {
        proof {
            self.lemma_as_nat_bound();
            other.lemma_as_nat_bound();
        }
        let (v, b) = self.overflowing_sub(other);
        if b {
            None
        } else {
            Some(v)
        }
    }

    pub fn lt(&self, other: &U256) -> (r: bool)
        ensures
            r == (self.as_nat() < other.as_nat()),
    {
        proof {
            lemma_halves_order(self.lo as nat, self.hi as nat, other.lo as nat, other.hi as nat);
        }
        self.hi < other.hi || (self.hi == other.hi && self.lo < other.lo)
    }

    pub fn le(&self, other: &U256) -> (r: bool)
        ensures
            r == (self.as_nat() <= other.as_nat()),
    {
        proof {
            lemma_halves_order(self.lo as nat, self.hi as nat, other.lo as nat, other.hi as nat);
            lemma_halves_order(other.lo as nat, other.hi as nat, self.lo as nat, self.hi as nat);
        }
        self.hi < other.hi || (self.hi == other.hi && self.lo <= other.lo)
    }

    /// Bitwise conjunction, half by half.
    pub fn bitand(self, other: U256) -> (r: U256)
        ensures
            r.lo == (self.lo & other.lo),
            r.hi == (self.hi & other.hi),
    {
        U256 { lo: self.lo & other.lo, hi: self.hi & other.hi }
    }

    /// Bitwise disjunction, half by half.
    pub fn bitor(self, other: U256) -> (r: U256)
        ensures
            r.lo == (self.lo | other.lo),
            r.hi == (self.hi | other.hi),
    {
        U256 { lo: self.lo | other.lo, hi: self.hi | other.hi }
    }

    /// Bitwise exclusive disjunction, half by half.
    pub fn bitxor(self, other: U256) -> (r: U256)
        ensures
            r.lo == (self.lo ^ other.lo),
            r.hi == (self.hi ^ other.hi),
    {
        U256 { lo: self.lo ^ other.lo, hi: self.hi ^ other.hi }
    }

    /// Doubling modulo `pow256`; the flag reports the bit shifted out.
    pub fn shl1(self) -> (r: (U256, bool))
        ensures
            r.0.as_nat() + (if r.1 {
                pow256()
            } else {
                0
            }) == 2 * self.as_nat(),
    {
        self.overflowing_add(self)
    }

    /// Halving: the mathematical value divided by two.
    pub fn shr1(self) -> (r: U256)
        ensures
            r.as_nat() == self.as_nat() / 2,
    {
        let lo: u128 = self.lo / 2 + (if self.hi % 2 == 1 {
            0x80000000000000000000000000000000u128
        } else {
            0u128
        });
        let hi: u128 = self.hi / 2;
        proof {
            lemma_shr1(self.lo as nat, self.hi as nat, lo as nat, hi as nat);
        }
        U256 { lo, hi }
    }

    pub fn is_odd(&self) -> (r: bool)
        ensures
            r == (self.as_nat() % 2 == 1),
    {
        proof {
            lemma_mod_split(self.lo as nat, self.hi as nat, 2);
        }
        self.lo % 2 == 1
    }

    /// Shift left by `k < 256` bit positions, keeping the low 256 bits.
    pub fn shl(self, k: u32) -> (r: U256)
        requires
            k < 256,
        ensures
            r.as_nat() == (self.as_nat() * vstd::arithmetic::power2::pow2(k as nat)) % pow256(),
    {
        let mut cur = self;
        let mut i: u32 = 0;
        proof {
            self.lemma_as_nat_bound();
            lemma_mul_mod_pow(self.as_nat());
        }
        while i < k
            invariant
                i <= k,
                cur.as_nat() == (self.as_nat() * vstd::arithmetic::power2::pow2(i as nat))
                    % pow256(),
            decreases k - i,
        {
            let (next, _over) = cur.shl1();
            proof {
                next.lemma_as_nat_bound();
                lemma_shl_step(self.as_nat(), i as nat, cur.as_nat(), next.as_nat());
            }
            cur = next;
            i = i + 1;
        }
        cur
    }

    /// Shift right by `k < 256` bit positions.
    pub fn shr(self, k: u32) -> (r: U256)
        requires
            k < 256,
        ensures
            r.as_nat() == self.as_nat() / vstd::arithmetic::power2::pow2(k as nat),
    {
        let mut cur = self;
        let mut i: u32 = 0;
        proof {
            vstd::arithmetic::power2::lemma2_to64();
            vstd::arithmetic::power::lemma_pow0(2);
        }
        while i < k
            invariant
                i <= k,
                cur.as_nat() == self.as_nat() / vstd::arithmetic::power2::pow2(i as nat),
            decreases k - i,
        {
            let next = cur.shr1();
            proof {
                lemma_shr_step(self.as_nat(), i as nat);
            }
            cur = next;
            i = i + 1;
        }
        cur
    }

    /// Multiplication that fails on overflow.
    pub fn checked_mul(self, other: U256) -> (r: Option<U256>)
        ensures
            self.as_nat() * other.as_nat() < pow256() ==> (r matches Some(v) && v.as_nat()
                == self.as_nat() * other.as_nat()),
            self.as_nat() * other.as_nat() >= pow256() ==> r is None,
    {
        let ghost a = self.as_nat();
        let ghost b = other.as_nat();
        let mut acc = U256::zero();
        let mut cur = self;
        let mut cur_over = false;
        let mut bv = other;
        let ghost mut pw: nat = 1;
        let ghost mut bmod: nat = 0;
        proof {
            assert(a * 0 == 0 && b * 1 == b && a * 1 == a) by (nonlinear_arith);
        }
        while !bv.is_zero()
            invariant
                b == bv.as_nat() * pw + bmod,
                bmod < pw,
                pw >= 1,
                acc.as_nat() == a * bmod,
                !cur_over ==> cur.as_nat() == a * pw,
                cur_over ==> a * pw >= pow256(),
                a == self.as_nat(),
                b == other.as_nat(),
            decreases bv.as_nat(),
        {
            let odd = bv.is_odd();
            proof {
                acc.lemma_as_nat_bound();
                if odd {
                    lemma_mul_bit_set(a, b, bv.as_nat(), pw, bmod);
                }
            }
            if odd {
                if cur_over {
                    proof {
                        assert(a * b >= a * pw) by (nonlinear_arith)
                            requires
                                b >= pw,
                                a >= 0,
                        ;
                    }
                    return None;
                }
                match acc.checked_add(cur) {
                    Option::Some(next) => {
                        proof {
                            assert(a * bmod + a * pw == a * (bmod + pw)) by (nonlinear_arith);
                        }
                        acc = next;
                    },
                    Option::None => {
                        proof {
                            assert(a * bmod + a * pw == a * (bmod + pw)) by (nonlinear_arith);
                            assert(a * b >= a * (bmod + pw)) by (nonlinear_arith)
                                requires
                                    b >= bmod + pw,
                                    a >= 0,
                            ;
                        }
                        return None;
                    },
                }
                proof {
                    bmod = bmod + pw;
                }
            }
            let (c2, c_over) = cur.shl1();
            let bv2 = bv.shr1();
            proof {
                let bit: nat = bv.as_nat() % 2;
                assert(bv.as_nat() == 2 * bv2.as_nat() + bit);
                assert((2 * bv2.as_nat() + bit) * pw == bv2.as_nat() * (2 * pw) + bit * pw)
                    by (nonlinear_arith);
                if !cur_over {
                    assert(2 * (a * pw) == a * (2 * pw)) by (nonlinear_arith);
                    if c_over {
                        assert(a * (2 * pw) >= pow256());
                    }
                } else {
                    assert(a * pw <= a * (2 * pw)) by (nonlinear_arith)
                        requires
                            pw >= 1,
                            a >= 0,
                    ;
                }
                pw = 2 * pw;
            }
            cur_over = cur_over || c_over;
            cur = c2;
            bv = bv2;
        }
        proof {
            assert(b == bmod);
        }
        Some(acc)
    }

    /// Euclidean division: the quotient and the remainder.
    pub fn div_rem(self, other: U256) -> (r: (U256, U256))
        requires
            other.as_nat() > 0,
        ensures
            r.0.as_nat() * other.as_nat() + r.1.as_nat() == self.as_nat(),
            r.1.as_nat() < other.as_nat(),
        decreases self.as_nat() / other.as_nat(),
    {
        proof {
            self.lemma_as_nat_bound();
            other.lemma_as_nat_bound();
        }
        if self.lt(&other) {
            return (U256 { lo: 0, hi: 0 }, self);
        }
        let (d2, d_over) = other.shl1();
        if d_over {
            // The doubled divisor passes the 256-bit bound, so the quotient is one.
            let (diff, _borrow) = self.overflowing_sub(other);
            proof {
                assert(1 * other.as_nat() == other.as_nat()) by (nonlinear_arith);
            }
            return (U256 { lo: 1, hi: 0 }, diff);
        }
        proof {
            lemma_div_half(self.as_nat(), other.as_nat(), d2.as_nat());
        }
        let (q, r) = self.div_rem(d2);
        proof {
            // 2 q <= q * 2 d <= n, so the doubled quotient fits.
            assert(2 * q.as_nat() <= q.as_nat() * d2.as_nat()) by (nonlinear_arith)
                requires
                    d2.as_nat() >= 2,
                    q.as_nat() >= 0,
            ;
        }
        let (q2, _qover) = q.shl1();
        proof {
            assert(q2.as_nat() == 2 * q.as_nat());
            assert((2 * q.as_nat()) * other.as_nat() == q.as_nat() * d2.as_nat())
                by (nonlinear_arith)
                requires
                    d2.as_nat() == 2 * other.as_nat(),
            ;
        }
        if r.lt(&other) {
            (q2, r)
        } else {
            let (r2, _b) = r.overflowing_sub(other);
            let (q3, _c) = q2.overflowing_add(U256 { lo: 1, hi: 0 });
            proof {
                q2.lemma_as_nat_bound();
                if q2.as_nat() + 1 >= pow256() {
                    // then the quotient already fills the width, so the
                    // dividend would pass the bound
                    assert(q2.as_nat() * other.as_nat() >= q2.as_nat()) by (nonlinear_arith)
                        requires
                            other.as_nat() >= 1,
                            q2.as_nat() >= 0,
                    ;
                    assert(false);
                }
                assert(q3.as_nat() == q2.as_nat() + 1);
                assert((q2.as_nat() + 1) * other.as_nat() == q2.as_nat() * other.as_nat()
                    + other.as_nat()) by (nonlinear_arith);
            }
            (q3, r2)
        }
    }

    /// Division by ten, with the remainder as a digit.
    pub fn divmod10(self) -> (r: (U256, u8))
        ensures
            r.0.as_nat() * 10 + r.1 == self.as_nat(),
            r.1 < 10,
    {
        let qh: u128 = self.hi / 10;
        let rh: u128 = self.hi % 10;
        let lo_hi: u128 = self.lo / 0x10000000000000000;
        let lo_lo: u128 = self.lo % 0x10000000000000000;
        proof {
            assert(lo_hi < 0x10000000000000000) by (nonlinear_arith)
                requires
                    lo_hi == self.lo as nat / 0x10000000000000000,
                    self.lo < 0x100000000000000000000000000000000nat,
            ;
        }
        let d1: u128 = rh * 0x10000000000000000 + lo_hi;
        let q1: u128 = d1 / 10;
        let r1: u128 = d1 % 10;
        let d0: u128 = r1 * 0x10000000000000000 + lo_lo;
        let q0: u128 = d0 / 10;
        let r0: u128 = d0 % 10;
        proof {
            assert(q1 < 0x10000000000000000 && q0 < 0x10000000000000000) by (nonlinear_arith)
                requires
                    q1 == d1 as nat / 10,
                    d1 < 10 * 0x10000000000000000,
                    q0 == d0 as nat / 10,
                    d0 < 10 * 0x10000000000000000,
            ;
        }
        let qlo: u128 = q1 * 0x10000000000000000 + q0;
        proof {
            lemma_divmod10(
                self.lo as nat,
                self.hi as nat,
                qh as nat,
                rh as nat,
                lo_hi as nat,
                lo_lo as nat,
                q1 as nat,
                r1 as nat,
                q0 as nat,
                r0 as nat,
            );
        }
        (U256 { lo: qlo, hi: qh }, r0 as u8)
    }
}

/// One half of a multi-word addition.
fn add_with_carry(a: u128, b: u128, carry: bool) -> (r: (u128, bool))
    ensures
        r.0 + (if r.1 {
            pow128()
        } else {
            0nat
        }) == a + b + (if carry {
            1nat
        } else {
            0nat
        }),
{
    let c: u128 = if carry {
        1
    } else {
        0
    };
    if a <= u128::MAX - b {
        if a + b <= u128::MAX - c {
            (a + b + c, false)
        } else {
            // a + b == u128::MAX and c == 1
            (0, true)
        }
    } else {
        // a + b + c - 2^128, computed without intermediate overflow
        ((a - (u128::MAX - b)) - 1 + c, true)
    }
}

/// One half of a multi-word subtraction.
fn sub_with_borrow(a: u128, b: u128, borrow: bool) -> (r: (u128, bool))
    ensures
        a + (if r.1 {
            pow128()
        } else {
            0nat
        }) == b + r.0 + (if borrow {
            1nat
        } else {
            0nat
        }),
{
    let c: u128 = if borrow {
        1
    } else {
        0
    };
    if b <= u128::MAX - c {
        if a >= b + c {
            (a - (b + c), false)
        } else {
            // a - b - c + 2^128, computed without intermediate overflow
            (u128::MAX - (b + c - a) + 1, true)
        }
    } else {
        // b == u128::MAX and c == 1: result is a with a borrow
        (a, true)
    }
}

proof fn lemma_mul_bit_set(a: nat, b: nat, bvn: nat, pw: nat, bmod: nat)
    requires
        b == bvn * pw + bmod,
        bvn % 2 == 1,
        bmod < pw,
    ensures
        b >= pw + bmod,
{
    assert(bvn >= 1);
    assert(bvn * pw >= pw) by (nonlinear_arith)
        requires
            bvn >= 1,
            pw >= 0,
    ;
}

proof fn lemma_div_half(n: nat, d: nat, d2: nat)
    requires
        d > 0,
        d2 == 2 * d,
        n >= d,
    ensures
        n / d2 < n / d,
{
    vstd::arithmetic::div_mod::lemma_div_denominator(n as int, d as int, 2);
    assert(n / d2 == (n / d) / 2);
    vstd::arithmetic::div_mod::lemma_div_is_ordered(d as int, n as int, d as int);
    assert(n / d >= 1);
}

proof fn lemma_combine_carry(
    alo: nat,
    ahi: nat,
    blo: nat,
    bhi: nat,
    slo: nat,
    shi: nat,
    c0: bool,
    c1: bool,
)
    requires
        slo + (if c0 {
            pow128()
        } else {
            0nat
        }) == alo + blo,
        shi + (if c1 {
            pow128()
        } else {
            0nat
        }) == ahi + bhi + (if c0 {
            1nat
        } else {
            0nat
        }),
    ensures
        slo + shi * pow128() + (if c1 {
            pow256()
        } else {
            0nat
        }) == (alo + ahi * pow128()) + (blo + bhi * pow128()),
{
    let p = pow128();
    assert(shi * p + (if c1 {
        p * p
    } else {
        0nat
    }) == ahi * p + bhi * p + (if c0 {
        p
    } else {
        0nat
    })) by (nonlinear_arith)
        requires
            shi + (if c1 {
                p
            } else {
                0nat
            }) == ahi + bhi + (if c0 {
                1nat
            } else {
                0nat
            }),
    ;
}

proof fn lemma_halves_order(alo: nat, ahi: nat, blo: nat, bhi: nat)
    requires
        alo < pow128(),
        blo < pow128(),
    ensures
        ahi < bhi ==> alo + ahi * pow128() < blo + bhi * pow128(),
        ahi == bhi && alo < blo ==> alo + ahi * pow128() < blo + bhi * pow128(),
{
    let p = pow128();
    if ahi < bhi {
        assert(ahi * p + p <= bhi * p) by (nonlinear_arith)
            requires
                ahi + 1 <= bhi,
        ;
    }
}

proof fn lemma_mod_split(lo: nat, hi: nat, m: nat)
    requires
        m > 0,
        pow128() % m == 0,
        lo < pow128(),
    ensures
        (lo + hi * pow128()) % m == lo % m,
{
    let p = pow128();
    let k = p / m;
    assert(p == m * k) by (nonlinear_arith)
        requires
            m > 0,
            p % m == 0,
            k == p / m,
    ;
    assert(hi * p == m * (hi * k)) by (nonlinear_arith)
        requires
            p == m * k,
    ;
    vstd::arithmetic::div_mod::lemma_mod_multiples_vanish((hi * k) as int, lo as int, m as int);
}

proof fn lemma_shr1(lo: nat, hi: nat, rlo: nat, rhi: nat)
    requires
        lo < pow128(),
        hi < pow128(),
        rlo == lo / 2 + (if hi % 2 == 1 {
            0x80000000000000000000000000000000nat
        } else {
            0nat
        }),
        rhi == hi / 2,
    ensures
        rlo + rhi * pow128() == (lo + hi * pow128()) / 2,
{
    let p = pow128();
    let h = 0x80000000000000000000000000000000nat;
    assert(p == 2 * h);
    assert(hi == 2 * (hi / 2) + hi % 2);
    assert(lo == 2 * (lo / 2) + lo % 2);
    let total = lo + hi * p;
    assert(total == 2 * (lo / 2 + (hi % 2) * h + (hi / 2) * p) + lo % 2) by (nonlinear_arith)
        requires
            p == 2 * h,
            hi == 2 * (hi / 2) + hi % 2,
            lo == 2 * (lo / 2) + lo % 2,
            total == lo + hi * p,
    ;
    assert(total / 2 == lo / 2 + (hi % 2) * h + (hi / 2) * p) by (nonlinear_arith)
        requires
            total == 2 * (lo / 2 + (hi % 2) * h + (hi / 2) * p) + lo % 2,
            lo % 2 < 2,
    ;
}

proof fn lemma_mul_mod_pow(v: nat)
    requires
        v < pow256(),
    ensures
        (v * vstd::arithmetic::power2::pow2(0)) % pow256() == v,
{
    vstd::arithmetic::power2::lemma2_to64();
    assert(v * 1 == v) by (nonlinear_arith);
    vstd::arithmetic::div_mod::lemma_small_mod(v, pow256());
}

proof fn lemma_shl_step(orig: nat, i: nat, cur: nat, next: nat)
    requires
        cur == (orig * vstd::arithmetic::power2::pow2(i)) % pow256(),
        next == 2 * cur || next + pow256() == 2 * cur,
        next < pow256(),
    ensures
        next == (orig * vstd::arithmetic::power2::pow2(i + 1)) % pow256(),
{
    let m = pow256();
    let p = vstd::arithmetic::power2::pow2(i);
    vstd::arithmetic::power2::lemma_pow2_unfold(i + 1);
    assert(vstd::arithmetic::power2::pow2(i + 1) == 2 * p);
    assert(m > 0);
    vstd::arithmetic::div_mod::lemma_mul_mod_noop_right(2, (orig * p) as int, m as int);
    assert(2 * (orig * p) == orig * (2 * p)) by (nonlinear_arith);
    assert(next % m == next) by {
        vstd::arithmetic::div_mod::lemma_small_mod(next, m);
    };
    if next + m == 2 * cur {
        vstd::arithmetic::div_mod::lemma_mod_multiples_vanish(1, next as int, m as int);
        assert((2 * cur) % m == next % m);
    } else {
        assert((2 * cur) % m == next % m);
    }
    assert((2 * cur) % m == (2 * (orig * p)) % m);
}

proof fn lemma_shr_step(orig: nat, i: nat)
    ensures
        (orig / vstd::arithmetic::power2::pow2(i)) / 2 == orig / vstd::arithmetic::power2::pow2(
            i + 1,
        ),
{
    let p = vstd::arithmetic::power2::pow2(i);
    vstd::arithmetic::power2::lemma_pow2_unfold(i + 1);
    vstd::arithmetic::power2::lemma_pow2_pos(i);
    vstd::arithmetic::div_mod::lemma_div_denominator(orig as int, p as int, 2);
    assert(p * 2 == 2 * p);
}

proof fn lemma_divmod10(
    lo: nat,
    hi: nat,
    qh: nat,
    rh: nat,
    lo_hi: nat,
    lo_lo: nat,
    q1: nat,
    r1: nat,
    q0: nat,
    r0: nat,
)
    requires
        lo < pow128(),
        hi < pow128(),
        qh == hi / 10,
        rh == hi % 10,
        lo_hi == lo / 0x10000000000000000,
        lo_lo == lo % 0x10000000000000000,
        q1 == (rh * 0x10000000000000000 + lo_hi) / 10,
        r1 == (rh * 0x10000000000000000 + lo_hi) % 10,
        q0 == (r1 * 0x10000000000000000 + lo_lo) / 10,
        r0 == (r1 * 0x10000000000000000 + lo_lo) % 10,
    ensures
        ((q1 * 0x10000000000000000 + q0) + qh * pow128()) * 10 + r0 == lo + hi * pow128(),
        r0 < 10,
        q1 * 0x10000000000000000 + q0 < pow128(),
{
    let w = 0x10000000000000000nat;
    let p = pow128();
    assert(p == w * w);
    let d1 = rh * w + lo_hi;
    let d0 = r1 * w + lo_lo;
    assert(hi == qh * 10 + rh);
    assert(lo == lo_hi * w + lo_lo) by (nonlinear_arith)
        requires
            lo_hi == lo / w,
            lo_lo == lo % w,
            w > 0,
    ;
    assert(d1 == q1 * 10 + r1 && r1 < 10);
    assert(d0 == q0 * 10 + r0 && r0 < 10);
    assert(lo_hi < w) by (nonlinear_arith)
        requires
            lo_hi == lo / w,
            lo < w * w,
            w > 0,
    ;
    assert(((q1 * w + q0) + qh * (w * w)) * 10 + r0 == lo_lo + lo_hi * w + hi * (w * w))
        by (nonlinear_arith)
        requires
            hi == qh * 10 + rh,
            rh * w + lo_hi == q1 * 10 + r1,
            r1 * w + lo_lo == q0 * 10 + r0,
    ;
    assert(lo + hi * p == lo_lo + lo_hi * w + hi * (w * w)) by (nonlinear_arith)
        requires
            lo == lo_hi * w + lo_lo,
            p == w * w,
    ;
    assert(q1 < w) by (nonlinear_arith)
        requires
            q1 == d1 / 10,
            d1 == rh * w + lo_hi,
            rh < 10,
            lo_hi < w,
            w > 0,
    ;
    assert(q0 < w) by (nonlinear_arith)
        requires
            q0 == d0 / 10,
            d0 == r1 * w + lo_lo,
            r1 < 10,
            lo_lo < w,
            w > 0,
    ;
    assert(q1 * w + q0 < w * w) by (nonlinear_arith)
        requires
            q1 < w,
            q0 < w,
    ;
}

} // verus!
