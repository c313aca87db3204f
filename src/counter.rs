//! Unbounded natural numbers: the value held by every tape cell.
use vstd::prelude::*;

use crate::tape::TapeValue;

verus! {

/// The radix of one limb.
pub open spec fn limb_base() -> nat {
    0x1_0000_0000_0000_0000
}

/// `limb_base()` raised to the power `k`.
pub open spec fn base_pow(k: nat) -> nat
    decreases k,
{
    if k == 0 {
        1
    } else {
        limb_base() * base_pow((k - 1) as nat)
    }
}

/// The number that little-endian base-2^64 limbs stand for.
pub open spec fn limbs_value(s: Seq<u64>) -> nat
    decreases s.len(),
{
    if s.len() == 0 {
        0
    } else {
        s[0] as nat + limb_base() * limbs_value(s.drop_first())
    }
}

/// The successor of a counter value.
pub open spec fn succ(n: nat) -> nat {
    n + 1
}

/// The predecessor of a counter value, with zero staying zero.
pub open spec fn pred_saturating(n: nat) -> nat {
    if n == 0 {
        0
    } else {
        (n - 1) as nat
    }
}

proof fn lemma_base_pow_positive(k: nat)
    ensures
        base_pow(k) >= 1,
        k >= 1 ==> base_pow(k) >= limb_base(),
    decreases k,
{
    if k > 0 {
        lemma_base_pow_positive((k - 1) as nat);
        let p = base_pow((k - 1) as nat);
        assert(limb_base() * p >= limb_base()) by (nonlinear_arith)
            requires
                p >= 1,
        ;
    }
}

/// Splitting the limbs splits the value.
proof fn lemma_value_concat(a: Seq<u64>, b: Seq<u64>)
    ensures
        limbs_value(a + b) == limbs_value(a) + base_pow(a.len()) * limbs_value(b),
    decreases a.len(),
{
    if a.len() == 0 {
        assert(a + b =~= b);
        assert(base_pow(0) == 1);
        assert(limbs_value(a) == 0);
    } else {
        let rest = a.drop_first();
        assert((a + b).drop_first() =~= rest + b);
        lemma_value_concat(rest, b);
        let x = limb_base();
        let p = base_pow(rest.len());
        let vr = limbs_value(rest);
        let vb = limbs_value(b);
        assert(x * (vr + p * vb) == x * vr + (x * p) * vb) by (nonlinear_arith);
        assert((a + b)[0] == a[0]);
        assert(base_pow(a.len()) == x * p);
        assert(limbs_value(a + b) == a[0] as nat + x * limbs_value(rest + b));
        assert(limbs_value(a) == a[0] as nat + x * vr);
        assert(limbs_value(a + b) == limbs_value(a) + (x * p) * vb);
        assert(limbs_value(a + b) == limbs_value(a) + base_pow(a.len()) * vb);
    }
}

/// Decrementing zero gives zero, and decrementing undoes incrementing.
pub proof fn decrement_undoes_increment(c: Counter)
    ensures
        pred_saturating(0) == 0,
        pred_saturating(succ(c@)) == c@,
{
}

/// Limbs that are all zero stand for zero.
proof fn lemma_zeros_value(s: Seq<u64>)
    requires
        forall|j: int| 0 <= j < s.len() ==> s[j] == 0,
    ensures
        limbs_value(s) == 0,
    decreases s.len(),
{
    if s.len() > 0 {
        lemma_zeros_value(s.drop_first());
    }
}

/// Limbs that are all at their maximum stand for one less than a power of the base.
proof fn lemma_maxes_value(s: Seq<u64>)
    requires
        forall|j: int| 0 <= j < s.len() ==> s[j] == u64::MAX,
    ensures
        limbs_value(s) + 1 == base_pow(s.len()),
    decreases s.len(),
{
    if s.len() > 0 {
        lemma_maxes_value(s.drop_first());
        let x = limb_base();
        let p = base_pow((s.len() - 1) as nat);
        let v = limbs_value(s.drop_first());
        assert((x - 1) + x * v + 1 == x * (v + 1)) by (nonlinear_arith);
    }
}

/// Limbs whose last limb is nonzero stand for at least the weight of that limb.
proof fn lemma_canonical_lower_bound(s: Seq<u64>)
    requires
        s.len() > 0,
        s.last() != 0,
    ensures
        limbs_value(s) >= base_pow((s.len() - 1) as nat),
{
    let front = s.drop_last();
    assert(front + seq![s.last()] =~= s);
    lemma_value_concat(front, seq![s.last()]);
    assert(seq![s.last()].drop_first() =~= Seq::<u64>::empty());
    assert(limbs_value(seq![s.last()]) == s.last() as nat) by {
        reveal_with_fuel(limbs_value, 2);
    }
    let p = base_pow(front.len());
    let l = s.last() as nat;
    assert(p * l >= p) by (nonlinear_arith)
        requires
            l >= 1,
    ;
}

/// A non-negative integer without an upper bound.
///
/// Held as little-endian base-2^64 limbs with no zero limb at the top, so that
/// zero has no limbs at all.
#[derive(Debug)]
pub struct Counter {
    limbs: Vec<u64>,
}

impl View for Counter {
    type V = nat;

    closed spec fn view(&self) -> nat {
        limbs_value(self.limbs@)
    }
}

impl Counter {
    #[verifier::type_invariant]
    spec fn canonical(self) -> bool {
        self.limbs@.len() == 0 || self.limbs@.last() != 0
    }

    /// The counter holding zero.
    pub fn zero() -> (r: Counter)
        ensures
            r@ == 0,
    {
        Counter { limbs: Vec::new() }
    }

    /// The counter holding `v`.
    pub fn from_u64(v: u64) -> (r: Counter)
        ensures
            r@ == v as nat,
    {
        let mut limbs: Vec<u64> = Vec::new();
        assert(limbs_value(limbs@) == 0);
        if v != 0 {
            limbs.push(v);
            proof {
                assert(limbs@.drop_first() =~= Seq::<u64>::empty());
                reveal_with_fuel(limbs_value, 2);
            }
        }
        Counter { limbs }
    }

    /// The value as a `u64`, or `None` where it does not fit.
    pub fn to_u64(&self) -> (r: Option<u64>)
        ensures
            r == (if self@ <= u64::MAX as nat {
                Some(self@ as u64)
            } else {
                None::<u64>
            }),
    {
        proof {
            use_type_invariant(self);
        }
        let n = self.limbs.len();
        if n == 0 {
            Some(0u64)
        } else if n == 1 {
            proof {
                assert(self.limbs@.drop_first() =~= Seq::<u64>::empty());
                reveal_with_fuel(limbs_value, 2);
            }
            Some(self.limbs[0])
        } else {
            proof {
                lemma_canonical_lower_bound(self.limbs@);
                lemma_base_pow_positive((n - 1) as nat);
            }
            None
        }
    }

    /// Whether the counter holds zero.
    pub fn is_zero(&self) -> (r: bool)
        ensures
            r == (self@ == 0),
    {
        proof {
            use_type_invariant(self);
            if self.limbs@.len() > 0 {
                lemma_canonical_lower_bound(self.limbs@);
                lemma_base_pow_positive((self.limbs@.len() - 1) as nat);
            }
        }
        self.limbs.len() == 0
    }

    /// The counter holding one more.
    pub fn increment(&self) -> (r: Counter)
        ensures
            r@ == succ(self@),
    {
        proof {
            use_type_invariant(self);
        }
        let ghost orig = self.limbs@;
        let n = self.limbs.len();
        let mut limbs: Vec<u64> = Vec::new();
        let mut i: usize = 0;
        while i < n && self.limbs[i] == u64::MAX
            invariant
                n == orig.len(),
                orig == self.limbs@,
                i <= n,
                limbs@.len() == i,
                forall|j: int| 0 <= j < i ==> limbs@[j] == 0,
                forall|j: int| 0 <= j < i ==> orig[j] == u64::MAX,
            decreases n - i,
        {
            limbs.push(0);
            i += 1;
        }
        let ghost zeros = limbs@;
        let ghost pre = orig.subrange(0, i as int);
        let ghost suf = orig.subrange(i as int, n as int);
        if i == n {
            limbs.push(1);
        } else {
            limbs.push(self.limbs[i] + 1);
            push_from(&mut limbs, &self.limbs, i + 1);
        }
        proof {
            let t = limbs@.subrange(i as int, limbs@.len() as int);
            assert(zeros + t =~= limbs@);
            assert(pre + suf =~= orig);
            lemma_value_concat(zeros, t);
            lemma_value_concat(pre, suf);
            lemma_zeros_value(zeros);
            lemma_maxes_value(pre);
            if i == n {
                assert(suf =~= Seq::<u64>::empty());
                assert(t.drop_first() =~= Seq::<u64>::empty());
                reveal_with_fuel(limbs_value, 2);
            } else {
                assert(t.drop_first() =~= suf.drop_first());
            }
            assert(limbs_value(t) == limbs_value(suf) + 1);
            let p = base_pow(i as nat);
            let vs = limbs_value(suf);
            assert(p * (vs + 1) == (p - 1) + p * vs + 1) by (nonlinear_arith);
        }
        Counter { limbs }
    }

    /// The counter holding one less, or zero where this one holds zero.
    pub fn decrement(&self) -> (r: Counter)
        ensures
            r@ == pred_saturating(self@),
    {
        proof {
            use_type_invariant(self);
        }
        let n = self.limbs.len();
        if n == 0 {
            return Counter::zero();
        }
        let ghost orig = self.limbs@;
        let mut limbs: Vec<u64> = Vec::new();
        let mut i: usize = 0;
        while self.limbs[i] == 0
            invariant
                n == orig.len(),
                orig == self.limbs@,
                orig.last() != 0,
                i < n,
                limbs@.len() == i,
                forall|j: int| 0 <= j < i ==> limbs@[j] == u64::MAX,
                forall|j: int| 0 <= j < i ==> orig[j] == 0,
            decreases n - i,
        {
            limbs.push(u64::MAX);
            i += 1;
        }
        let ghost maxes = limbs@;
        let ghost pre = orig.subrange(0, i as int);
        let ghost suf = orig.subrange(i as int, n as int);
        let x = self.limbs[i];
        if x == 1 && i + 1 == n {
            proof {
                assert(suf =~= seq![1u64]);
                reveal_with_fuel(limbs_value, 2);
            }
        } else {
            limbs.push(x - 1);
            push_from(&mut limbs, &self.limbs, i + 1);
        }
        proof {
            let t = limbs@.subrange(i as int, limbs@.len() as int);
            assert(maxes + t =~= limbs@);
            assert(pre + suf =~= orig);
            lemma_value_concat(maxes, t);
            lemma_value_concat(pre, suf);
            lemma_zeros_value(pre);
            lemma_maxes_value(maxes);
            if x == 1 && i + 1 == n {
                assert(t =~= Seq::<u64>::empty());
            } else {
                assert(t.drop_first() =~= suf.drop_first());
            }
            assert(limbs_value(t) + 1 == limbs_value(suf));
            let p = base_pow(i as nat);
            let vt = limbs_value(t);
            assert(p * (vt + 1) == (p - 1) + p * vt + 1) by (nonlinear_arith);
            lemma_base_pow_positive(i as nat);
        }
        Counter { limbs }
    }
}

impl TapeValue for Counter {
    /// A second counter with the same value.
    fn duplicate(&self) -> (r: Counter) {
        proof {
            use_type_invariant(self);
        }
        let mut limbs: Vec<u64> = Vec::new();
        push_from(&mut limbs, &self.limbs, 0);
        proof {
            assert(limbs@ =~= self.limbs@);
        }
        Counter { limbs }
    }
}

/// Appends the limbs of `src` from index `from` on to `dst`.
fn push_from(dst: &mut Vec<u64>, src: &Vec<u64>, from: usize)
    requires
        from <= src@.len(),
    ensures
        final(dst)@ == old(dst)@ + src@.subrange(from as int, src@.len() as int),
{
    let n = src.len();
    let mut k: usize = from;
    while k < n
        invariant
            n == src@.len(),
            from <= k <= n,
            dst@ == old(dst)@ + src@.subrange(from as int, k as int),
        decreases n - k,
    {
        dst.push(src[k]);
        k += 1;
        proof {
            assert(dst@ =~= old(dst)@ + src@.subrange(from as int, k as int));
        }
    }
}

} // verus!
