//! Natural numbers of unbounded size.
//!
//! A [`Natural`] is a little-endian sequence of 64-bit limbs. Its view is the
//! mathematical natural number that the limbs denote, and every operation is
//! specified over that view, so callers never reason about limbs or carries.

use vstd::prelude::*;

verus! {

/// The radix of one limb, `2^64`.
pub open spec fn radix() -> nat {
    0x1_0000_0000_0000_0000
}

/// The weight of limb `i`, `radix()^i`.
pub open spec fn weight(i: nat) -> nat
    decreases i,
{
    if i == 0 {
        1
    } else {
        radix() * weight((i - 1) as nat)
    }
}

/// Limb `i` of `limbs`, reading zero past the end.
pub open spec fn limb_at(limbs: Seq<u64>, i: int) -> nat {
    if 0 <= i < limbs.len() {
        limbs[i] as nat
    } else {
        0
    }
}

/// The number denoted by the lowest `n` limbs of `limbs`.
pub open spec fn low_value(limbs: Seq<u64>, n: nat) -> nat
    decreases n,
{
    if n == 0 {
        0
    } else {
        low_value(limbs, (n - 1) as nat) + limb_at(limbs, n - 1) * weight((n - 1) as nat)
    }
}

/// The number denoted by all of `limbs`, least significant limb first.
pub open spec fn limbs_value(limbs: Seq<u64>) -> nat {
    low_value(limbs, limbs.len())
}

/// The lowest `n` limbs denote a number below `weight(n)`.
proof fn lemma_low_value_bound(limbs: Seq<u64>, n: nat)
    ensures
        low_value(limbs, n) < weight(n),
    decreases n,
{
    if n > 0 {
        let m = (n - 1) as nat;
        lemma_low_value_bound(limbs, m);
        let top = limb_at(limbs, m as int);
        assert(top < radix());
        assert(low_value(limbs, m) + top * weight(m) < radix() * weight(m)) by (nonlinear_arith)
            requires
                low_value(limbs, m) < weight(m),
                top < radix(),
        ;
    }
}

/// Sequences that agree on their lowest `n` limbs denote the same number there.
proof fn lemma_low_value_agrees(a: Seq<u64>, b: Seq<u64>, n: nat)
    requires
        forall|j: int| 0 <= j < n ==> limb_at(a, j) == limb_at(b, j),
    ensures
        low_value(a, n) == low_value(b, n),
    decreases n,
{
    if n > 0 {
        lemma_low_value_agrees(a, b, (n - 1) as nat);
    }
}

/// Limbs past the end contribute nothing.
proof fn lemma_low_value_past_end(limbs: Seq<u64>, n: nat)
    requires
        n >= limbs.len(),
    ensures
        low_value(limbs, n) == limbs_value(limbs),
    decreases n,
{
    if n > limbs.len() {
        lemma_low_value_past_end(limbs, (n - 1) as nat);
        assert(limb_at(limbs, n - 1) == 0);
        assert(0 * weight((n - 1) as nat) == 0) by (nonlinear_arith);
    }
}

/// Appending a limb adds that limb at the weight of its position.
proof fn lemma_value_push(limbs: Seq<u64>, x: u64)
    ensures
        limbs_value(limbs.push(x)) == limbs_value(limbs) + x * weight(limbs.len()),
{
    let longer = limbs.push(x);
    assert forall|j: int| 0 <= j < limbs.len() implies limb_at(longer, j) == limb_at(limbs, j) by {}
    lemma_low_value_agrees(longer, limbs, limbs.len());
    assert(limb_at(longer, limbs.len() as int) == x);
}

/// The value of a sequence splits into its first limb and the rest.
proof fn lemma_low_value_first(limbs: Seq<u64>, n: nat)
    requires
        n >= 1,
        limbs.len() >= 1,
    ensures
        low_value(limbs, n) == limb_at(limbs, 0) + radix() * low_value(
            limbs.drop_first(),
            (n - 1) as nat,
        ),
    decreases n,
{
    let rest = limbs.drop_first();
    if n == 1 {
        assert(low_value(limbs, 0) == 0);
        assert(low_value(rest, 0) == 0);
        assert(weight(0) == 1);
        assert(limb_at(limbs, 0) * 1 == limb_at(limbs, 0)) by (nonlinear_arith);
        assert(radix() * 0 == 0) by (nonlinear_arith);
    } else {
        let m = (n - 1) as nat;
        let k = (n - 2) as nat;
        lemma_low_value_first(limbs, m);
        assert(limb_at(limbs, m as int) == limb_at(rest, k as int));
        let top = limb_at(rest, k as int);
        assert(weight(m) == radix() * weight(k));
        assert(radix() * low_value(rest, k) + top * (radix() * weight(k)) == radix() * (low_value(
            rest,
            k,
        ) + top * weight(k))) by (nonlinear_arith);
    }
}

/// A natural number of unbounded size.
pub struct Natural {
    limbs: Vec<u64>,
}

impl View for Natural {
    type V = nat;

    closed spec fn view(&self) -> nat {
        limbs_value(self.limbs@)
    }
}

/// Limb `i` of `limbs`, reading zero past the end.
fn limb(limbs: &Vec<u64>, i: usize) -> (r: u64)
    ensures
        r == limb_at(limbs@, i as int),
{
    if i < limbs.len() {
        limbs[i]
    } else {
        0
    }
}

/// Removes the zero limbs at the most significant end.
fn trim(limbs: &mut Vec<u64>)
    ensures
        limbs_value(final(limbs)@) == limbs_value(old(limbs)@),
        final(limbs)@.len() <= old(limbs)@.len(),
{
    while limbs.len() > 0 && limbs[limbs.len() - 1] == 0
        invariant
            limbs_value(limbs@) == limbs_value(old(limbs)@),
            limbs@.len() <= old(limbs)@.len(),
        decreases limbs.len(),
    {
        proof {
            let shorter = limbs@.drop_last();
            let n = shorter.len();
            assert forall|j: int| 0 <= j < n implies limb_at(shorter, j) == limb_at(limbs@, j) by {}
            lemma_low_value_agrees(shorter, limbs@, n);
            assert(0 * weight(n) == 0) by (nonlinear_arith);
        }
        limbs.pop();
    }
}

/// `limbs` times the single limb `m`.
fn times_limb(limbs: &Vec<u64>, m: u64) -> (r: Vec<u64>)
    ensures
        limbs_value(r@) == limbs_value(limbs@) * m,
{
    let n = limbs.len();
    let mut r: Vec<u64> = Vec::new();
    let mut carry: u64 = 0;
    let mut i: usize = 0;
    assert(0 * m == 0) by (nonlinear_arith);
    assert(carry * weight(0) == 0) by (nonlinear_arith)
        requires
            carry == 0,
    ;
    while i < n
        invariant
            n == limbs.len(),
            i <= n,
            r.len() == i,
            limbs_value(r@) + carry * weight(i as nat) == low_value(limbs@, i as nat) * m,
        decreases n - i,
    {
        let x = limbs[i];
        assert(x * m + carry < 0x1_0000_0000_0000_0000_0000_0000_0000_0000) by (nonlinear_arith)
            requires
                x <= 0xffff_ffff_ffff_ffff,
                m <= 0xffff_ffff_ffff_ffff,
                carry <= 0xffff_ffff_ffff_ffff,
        ;
        let t: u128 = x as u128 * m as u128 + carry as u128;
        let lo: u64 = (t % 0x1_0000_0000_0000_0000u128) as u64;
        let hi: u64 = (t / 0x1_0000_0000_0000_0000u128) as u64;
        proof {
            let w = weight(i as nat);
            let before = limbs_value(r@);
            let low = low_value(limbs@, i as nat);
            lemma_value_push(r@, lo);
            assert(t == lo + hi * radix());
            assert(weight((i + 1) as nat) == radix() * w);
            assert(limb_at(limbs@, i as int) == x);
            assert(before + lo * w + hi * (radix() * w) == (low + x * w) * m) by (nonlinear_arith)
                requires
                    before + carry * w == low * m,
                    x * m + carry == lo + hi * radix(),
            ;
        }
        r.push(lo);
        carry = hi;
        i += 1;
    }
    proof {
        lemma_value_push(r@, carry);
    }
    r.push(carry);
    r
}

impl Natural {
    /// The natural number `x`.
    pub fn from_u64(x: u64) -> (r: Natural)
        ensures
            r@ == x,
    {
        let mut limbs: Vec<u64> = Vec::new();
        proof {
            lemma_value_push(limbs@, x);
            assert(weight(0) == 1);
            assert(x * 1 == x) by (nonlinear_arith);
        }
        limbs.push(x);
        Natural { limbs }
    }

    /// A copy of this number.
    pub fn duplicate(&self) -> (r: Natural)
        ensures
            r@ == self@,
    {
        Natural { limbs: self.to_limbs() }
    }

    /// The limbs of this number, least significant first.
    pub fn to_limbs(&self) -> (r: Vec<u64>)
        ensures
            limbs_value(r@) == self@,
    {
        let r = self.limbs.clone();
        assert(r@ =~= self.limbs@);
        r
    }

    /// Whether this number is zero.
    pub fn is_zero(&self) -> (r: bool)
        ensures
            r == (self@ == 0),
    {
        let zero = Natural::from_u64(0);
        self.equals(&zero)
    }

    /// The sum of the two numbers.
    pub fn plus(&self, other: &Natural) -> (r: Natural)
        ensures
            r@ == self@ + other@,
    {
        let n = if self.limbs.len() >= other.limbs.len() {
            self.limbs.len()
        } else {
            other.limbs.len()
        };
        let mut limbs: Vec<u64> = Vec::new();
        let mut carry: u64 = 0;
        let mut i: usize = 0;
        assert(carry * weight(0) == 0) by (nonlinear_arith)
            requires
                carry == 0,
        ;
        while i < n
            invariant
                i <= n,
                limbs.len() == i,
                carry <= 1,
                limbs_value(limbs@) + carry * weight(i as nat) == low_value(self.limbs@, i as nat)
                    + low_value(other.limbs@, i as nat),
            decreases n - i,
        {
            let x = limb(&self.limbs, i);
            let y = limb(&other.limbs, i);
            let t: u128 = x as u128 + y as u128 + carry as u128;
            let lo: u64 = (t % 0x1_0000_0000_0000_0000u128) as u64;
            let hi: u64 = (t / 0x1_0000_0000_0000_0000u128) as u64;
            proof {
                let w = weight(i as nat);
                let before = limbs_value(limbs@);
                lemma_value_push(limbs@, lo);
                assert(weight((i + 1) as nat) == radix() * w);
                assert(before + lo * w + hi * (radix() * w) == before + carry * w + x * w + y * w)
                    by (nonlinear_arith)
                    requires
                        x + y + carry == lo + hi * radix(),
                ;
            }
            limbs.push(lo);
            carry = hi;
            i += 1;
        }
        proof {
            lemma_value_push(limbs@, carry);
            lemma_low_value_past_end(self.limbs@, n as nat);
            lemma_low_value_past_end(other.limbs@, n as nat);
        }
        limbs.push(carry);
        trim(&mut limbs);
        Natural { limbs }
    }

    /// The difference of the two numbers, or `None` where `other` is the
    /// larger.
    pub fn minus(&self, other: &Natural) -> (r: Option<Natural>)
        ensures
            r is None <==> self@ < other@,
            r matches Some(d) ==> d@ == self@ - other@,
    {
        if self.less_than(other) {
            return None;
        }
        let n = if self.limbs.len() >= other.limbs.len() {
            self.limbs.len()
        } else {
            other.limbs.len()
        };
        let mut limbs: Vec<u64> = Vec::new();
        let mut borrow: u64 = 0;
        let mut i: usize = 0;
        assert(borrow * weight(0) == 0) by (nonlinear_arith)
            requires
                borrow == 0,
        ;
        while i < n
            invariant
                i <= n,
                limbs.len() == i,
                borrow <= 1,
                limbs_value(limbs@) + low_value(other.limbs@, i as nat) == low_value(
                    self.limbs@,
                    i as nat,
                ) + borrow * weight(i as nat),
            decreases n - i,
        {
            let x = limb(&self.limbs, i);
            let y = limb(&other.limbs, i);
            let need: u128 = y as u128 + borrow as u128;
            let (d, next): (u64, u64) = if x as u128 >= need {
                ((x as u128 - need) as u64, 0u64)
            } else {
                ((0x1_0000_0000_0000_0000u128 + x as u128 - need) as u64, 1u64)
            };
            proof {
                let w = weight(i as nat);
                let before = limbs_value(limbs@);
                lemma_value_push(limbs@, d);
                assert(weight((i + 1) as nat) == radix() * w);
                assert(d * w + y * w + borrow * w == x * w + next * (radix() * w))
                    by (nonlinear_arith)
                    requires
                        d + y + borrow == x + next * radix(),
                ;
            }
            limbs.push(d);
            borrow = next;
            i += 1;
        }
        proof {
            lemma_low_value_past_end(self.limbs@, n as nat);
            lemma_low_value_past_end(other.limbs@, n as nat);
            lemma_low_value_bound(limbs@, n as nat);
            if borrow == 1 {
                assert(1 * weight(n as nat) == weight(n as nat)) by (nonlinear_arith);
                assert(false);
            }
            assert(0 * weight(n as nat) == 0) by (nonlinear_arith);
        }
        trim(&mut limbs);
        Some(Natural { limbs })
    }

    /// The product of the two numbers.
    pub fn times(&self, other: &Natural) -> (r: Natural)
        ensures
            r@ == self@ * other@,
    {
        let n = other.limbs.len();
        let mut acc = Natural { limbs: Vec::new() };
        let mut i: usize = n;
        proof {
            assert(other.limbs@.skip(n as int).len() == 0);
            assert(self@ * 0 == 0) by (nonlinear_arith);
        }
        while i > 0
            invariant
                n == other.limbs.len(),
                i <= n,
                acc@ == self@ * limbs_value(other.limbs@.skip(i as int)),
            decreases i,
        {
            i -= 1;
            let m = other.limbs[i];
            let part = Natural { limbs: times_limb(&self.limbs, m) };
            let ghost high = limbs_value(other.limbs@.skip(i + 1));
            let ghost before = acc@;
            proof {
                let shifted = acc.limbs@.insert(0, 0u64);
                assert(shifted.drop_first() =~= acc.limbs@);
                lemma_low_value_first(shifted, shifted.len());
                assert(limbs_value(shifted) == radix() * before);
                let tail = other.limbs@.skip(i as int);
                assert(tail.drop_first() =~= other.limbs@.skip(i + 1));
                lemma_low_value_first(tail, tail.len());
                assert(limbs_value(tail) == m + radix() * high);
                assert(radix() * before + self@ * m == self@ * (m + radix() * high))
                    by (nonlinear_arith)
                    requires
                        before == self@ * high,
                ;
            }
            acc.limbs.insert(0, 0u64);
            acc = acc.plus(&part);
        }
        assert(other.limbs@.skip(0) =~= other.limbs@);
        acc
    }

    /// Whether this number is below `other`.
    pub fn less_than(&self, other: &Natural) -> (r: bool)
        ensures
            r == (self@ < other@),
    {
        let n = if self.limbs.len() >= other.limbs.len() {
            self.limbs.len()
        } else {
            other.limbs.len()
        };
        proof {
            lemma_low_value_past_end(self.limbs@, n as nat);
            lemma_low_value_past_end(other.limbs@, n as nat);
        }
        let mut i: usize = n;
        while i > 0
            invariant
                i <= n,
                forall|j: int| i <= j < n ==> limb_at(self.limbs@, j) == limb_at(other.limbs@, j),
                self@ == low_value(self.limbs@, n as nat),
                other@ == low_value(other.limbs@, n as nat),
            decreases i,
        {
            i -= 1;
            let x = limb(&self.limbs, i);
            let y = limb(&other.limbs, i);
            if x < y {
                proof {
                    lemma_decided_by_limb(self.limbs@, other.limbs@, i as nat, n as nat);
                }
                return true;
            }
            if x > y {
                proof {
                    lemma_decided_by_limb(other.limbs@, self.limbs@, i as nat, n as nat);
                }
                return false;
            }
        }
        proof {
            lemma_low_value_agrees(self.limbs@, other.limbs@, n as nat);
        }
        false
    }

    /// Whether the two numbers are the same.
    pub fn equals(&self, other: &Natural) -> (r: bool)
        ensures
            r == (self@ == other@),
    {
        !self.less_than(other) && !other.less_than(self)
    }
}

/// Two numbers that agree above limb `k` are ordered as their limbs `k` are.
proof fn lemma_decided_by_limb(a: Seq<u64>, b: Seq<u64>, k: nat, n: nat)
    requires
        k < n,
        limb_at(a, k as int) < limb_at(b, k as int),
        forall|j: int| k < j < n ==> limb_at(a, j) == limb_at(b, j),
    ensures
        low_value(a, n) < low_value(b, n),
    decreases n,
{
    let m = (n - 1) as nat;
    if m == k {
        lemma_low_value_bound(a, k);
        let x = limb_at(a, k as int);
        let y = limb_at(b, k as int);
        assert(low_value(a, k) + x * weight(k) < low_value(b, k) + y * weight(k))
            by (nonlinear_arith)
            requires
                low_value(a, k) < weight(k),
                x < y,
        ;
    } else {
        lemma_decided_by_limb(a, b, k, m);
        assert(limb_at(a, m as int) == limb_at(b, m as int));
    }
}

} // verus!
