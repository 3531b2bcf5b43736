//! Unsigned numbers as little-endian base-2^64 limb strings.
//!
//! The durable store keeps every numeric column with unbounded precision, so
//! that a write never truncates; [`RowNumber`] is that column value. A block's
//! difficulty is a 256-bit unsigned integer, [`U256`]. Narrowing either back
//! into a fixed width is checked: it fails exactly where the value is out of
//! range.

use vstd::prelude::*;

verus! {

/// One limb's worth of range: 2^64.
pub open spec fn limb_base() -> nat {
    0x10000000000000000
}

/// The value of a little-endian base-2^64 limb string.
pub open spec fn limbs_val(s: Seq<u64>) -> nat
    decreases s.len(),
{
    if s.len() == 0 {
        0
    } else {
        s[0] as nat + limb_base() * limbs_val(s.drop_first())
    }
}

/// 2^64 raised to `k`.
pub open spec fn pow_base(k: nat) -> nat
    decreases k,
{
    if k == 0 {
        1
    } else {
        limb_base() * pow_base((k - 1) as nat)
    }
}

/// A limb string's value stays below 2^64 to the power of its length.
pub proof fn lemma_limbs_val_bound(s: Seq<u64>)
    ensures
        limbs_val(s) < pow_base(s.len() as nat),
    decreases s.len(),
{
    if s.len() == 0 {
    } else {
        let t = s.drop_first();
        lemma_limbs_val_bound(t);
        let b = limb_base();
        let v = limbs_val(t);
        let p = pow_base(t.len() as nat);
        assert(s[0] + b * v < b * (v + 1)) by (nonlinear_arith)
            requires
                s[0] < b,
                v >= 0,
        ;
        assert(b * (v + 1) <= b * p) by (nonlinear_arith)
            requires
                v + 1 <= p,
                b >= 0,
        ;
        assert(pow_base(s.len() as nat) == b * p);
    }
}

/// With every limb past the first zero, the value is the first limb.
pub proof fn lemma_limbs_val_zeros(s: Seq<u64>)
    requires
        forall|i: int| 1 <= i < s.len() ==> s[i] == 0,
    ensures
        limbs_val(s) == if s.len() == 0 {
            0nat
        } else {
            s[0] as nat
        },
    decreases s.len(),
{
    if s.len() > 0 {
        let t = s.drop_first();
        assert(forall|i: int| 1 <= i < t.len() ==> t[i] == s[i + 1] && s[i + 1] == 0);
        if t.len() > 0 {
            assert(t[0] == s[1]);
        }
        lemma_limbs_val_zeros(t);
    }
}

/// A string of zero limbs has value zero.
pub proof fn lemma_limbs_val_all_zero(s: Seq<u64>)
    requires
        forall|i: int| 0 <= i < s.len() ==> s[i] == 0,
    ensures
        limbs_val(s) == 0,
    decreases s.len(),
{
    if s.len() > 0 {
        assert(forall|i: int|
            0 <= i < s.drop_first().len() ==> s.drop_first()[i] == s[i + 1] && s[i + 1] == 0);
        lemma_limbs_val_all_zero(s.drop_first());
    }
}

/// A nonzero limb at position `i` puts the value at or above 2^64 to the `i`.
pub proof fn lemma_limbs_val_min_pow(s: Seq<u64>, i: int)
    requires
        0 <= i < s.len(),
        s[i] != 0,
    ensures
        limbs_val(s) >= pow_base(i as nat),
    decreases i,
{
    let b = limb_base();
    let t = s.drop_first();
    if i == 0 {
        assert(limbs_val(s) == s[0] as nat + b * limbs_val(t));
        assert(b * limbs_val(t) >= 0) by (nonlinear_arith)
            requires
                b >= 0,
                limbs_val(t) >= 0,
        ;
    } else {
        assert(t[i - 1] == s[i]);
        lemma_limbs_val_min_pow(t, i - 1);
        let p = pow_base((i - 1) as nat);
        assert(b * limbs_val(t) >= b * p) by (nonlinear_arith)
            requires
                limbs_val(t) >= p,
                b >= 0,
        ;
        assert(pow_base(i as nat) == b * p);
    }
}

/// The value splits at any cut: low limbs plus the shifted high limbs.
pub proof fn lemma_limbs_val_split(s: Seq<u64>, k: int)
    requires
        0 <= k <= s.len(),
    ensures
        limbs_val(s) == limbs_val(s.take(k)) + pow_base(k as nat) * limbs_val(s.skip(k)),
    decreases k,
{
    if k == 0 {
        assert(s.take(0) =~= Seq::<u64>::empty());
        assert(s.skip(0) =~= s);
        assert(limbs_val(Seq::<u64>::empty()) == 0);
        assert(pow_base(0) == 1);
        assert(limbs_val(s) == limbs_val(s.take(0)) + 1 * limbs_val(s.skip(0)));
    } else {
        let b = limb_base();
        let t = s.drop_first();
        lemma_limbs_val_split(t, k - 1);
        assert(s.take(k).drop_first() =~= t.take(k - 1));
        assert(s.skip(k) =~= t.skip(k - 1));
        assert(s.take(k)[0] == s[0]);
        assert(s.take(k).len() == k);
        let a = limbs_val(t.take(k - 1));
        let c = limbs_val(t.skip(k - 1));
        let p = pow_base((k - 1) as nat);
        assert(b * (a + p * c) == b * a + (b * p) * c) by (nonlinear_arith);
        assert(pow_base(k as nat) == b * p);
        assert(limbs_val(t) == a + p * c);
        assert(limbs_val(s.take(k)) == s[0] as nat + b * a);
        assert(limbs_val(s) == s[0] as nat + b * limbs_val(t));
        assert(limbs_val(s) == s[0] as nat + b * (a + p * c));
        assert(limbs_val(s) == (s[0] as nat + b * a) + (b * p) * c);
        assert(limbs_val(s.skip(k)) == c);
        assert(limbs_val(s) == limbs_val(s.take(k)) + pow_base(k as nat) * limbs_val(s.skip(k)));
    }
}

/// Zero limbs from position `k` on leave the value to the low limbs.
pub proof fn lemma_limbs_val_trunc(s: Seq<u64>, k: int)
    requires
        0 <= k <= s.len(),
        forall|i: int| k <= i < s.len() ==> s[i] == 0,
    ensures
        limbs_val(s) == limbs_val(s.take(k)),
{
    lemma_limbs_val_split(s, k);
    assert(forall|i: int| 0 <= i < s.skip(k).len() ==> s.skip(k)[i] == s[i + k] && s[i + k] == 0);
    lemma_limbs_val_all_zero(s.skip(k));
    assert(pow_base(k as nat) * 0 == 0) by (nonlinear_arith);
}

/// Powers of 2^64 grow with the exponent.
pub proof fn lemma_pow_base_mono(i: nat, j: nat)
    requires
        i <= j,
    ensures
        pow_base(i) <= pow_base(j),
    decreases j,
{
    if i < j {
        lemma_pow_base_mono(i, (j - 1) as nat);
        let p = pow_base((j - 1) as nat);
        assert(limb_base() * p >= 1 * p) by (nonlinear_arith)
            requires
                p >= 0,
        ;
        assert(pow_base(j) == limb_base() * p);
    }
}

/// Copies a limb vector.
fn copy_limbs(v: &Vec<u64>) -> (r: Vec<u64>)
    ensures
        r@ == v@,
{
    let mut r: Vec<u64> = Vec::new();
    let mut i: usize = 0;
    while i < v.len()
        invariant
            i <= v@.len(),
            r@ == v@.take(i as int),
        decreases v@.len() - i,
    {
        r.push(v[i]);
        proof {
            assert(v@.take(i + 1) =~= v@.take(i as int).push(v@[i as int]));
        }
        i = i + 1;
    }
    proof {
        assert(v@.take(v@.len() as int) =~= v@);
    }
    r
}

/// A 256-bit unsigned integer: exactly four limbs, little-endian.
#[derive(Debug, Clone, PartialEq, Eq)]
pub struct U256 {
    pub limbs: Vec<u64>,
}

impl View for U256 {
    type V = nat;

    open spec fn view(&self) -> nat {
        limbs_val(self.limbs@)
    }
}

impl U256 {
    /// Exactly four limbs.
    pub open spec fn wf(&self) -> bool {
        self.limbs@.len() == 4
    }

    /// The 256-bit value of a small number.
    pub fn from_u64(x: u64) -> (r: U256)
        ensures
            r.wf(),
            r@ == x,
    {
        let mut v: Vec<u64> = Vec::new();
        v.push(x);
        v.push(0);
        v.push(0);
        v.push(0);
        proof {
            lemma_limbs_val_zeros(v@);
        }
        U256 { limbs: v }
    }

    /// A 256-bit value from its four limbs, least significant first.
    pub fn from_limbs(limbs: Vec<u64>) -> (r: U256)
        requires
            limbs@.len() == 4,
        ensures
            r.wf(),
            r@ == limbs_val(limbs@),
    {
        U256 { limbs }
    }

    /// Narrows to u64; `None` exactly where the value does not fit.
    pub fn try_as_u64(&self) -> (r: Option<u64>)
        requires
            self.wf(),
        ensures
            match r {
                Some(n) => self@ == n,
                None => self@ >= limb_base(),
            },
    {
        if self.limbs[1] == 0 && self.limbs[2] == 0 && self.limbs[3] == 0 {
            proof {
                lemma_limbs_val_zeros(self.limbs@);
            }
            Some(self.limbs[0])
        } else {
            proof {
                assert(pow_base(0) == 1);
                assert(pow_base(1) == limb_base());
                if self.limbs@[1] != 0 {
                    lemma_limbs_val_min_pow(self.limbs@, 1);
                } else if self.limbs@[2] != 0 {
                    lemma_limbs_val_min_pow(self.limbs@, 2);
                    lemma_pow_base_mono(1, 2);
                } else {
                    lemma_limbs_val_min_pow(self.limbs@, 3);
                    lemma_pow_base_mono(1, 3);
                }
            }
            None
        }
    }

    /// A copy of the value.
    pub fn duplicate(&self) -> (r: U256)
        requires
            self.wf(),
        ensures
            r.wf(),
            r@ == self@,
    {
        U256 { limbs: copy_limbs(&self.limbs) }
    }

    /// Narrows to u64 where the value is known to fit.
    pub fn as_u64(&self) -> (r: u64)
        requires
            self.wf(),
            self@ < limb_base(),
        ensures
            r == self@,
    {
        match self.try_as_u64() {
            Some(n) => n,
            None => {
                proof {
                    assert(false);
                }
                0
            },
        }
    }
}

/// A stored numeric column value: unbounded precision, so a write never
/// truncates. Any limb string is a value; a read back into a fixed width
/// checks the range.
#[derive(Debug, Clone, PartialEq, Eq)]
pub struct RowNumber {
    pub limbs: Vec<u64>,
}

impl View for RowNumber {
    type V = nat;

    open spec fn view(&self) -> nat {
        limbs_val(self.limbs@)
    }
}

impl RowNumber {
    /// The stored form of a u64.
    pub fn from_u64(x: u64) -> (r: RowNumber)
        ensures
            r@ == x,
    {
        let mut v: Vec<u64> = Vec::new();
        v.push(x);
        proof {
            assert(v@.drop_first() =~= Seq::<u64>::empty());
            assert(limbs_val(Seq::<u64>::empty()) == 0);
            assert(v@[0] == x);
        }
        RowNumber { limbs: v }
    }

    /// The stored form of a 256-bit value.
    pub fn from_u256(x: &U256) -> (r: RowNumber)
        requires
            x.wf(),
        ensures
            r@ == x@,
    {
        RowNumber { limbs: copy_limbs(&x.limbs) }
    }

    /// A copy of the stored value.
    pub fn duplicate(&self) -> (r: RowNumber)
        ensures
            r@ == self@,
    {
        RowNumber { limbs: copy_limbs(&self.limbs) }
    }

    /// Narrows to u64; `None` exactly where the value does not fit.
    pub fn to_u64(&self) -> (r: Option<u64>)
        ensures
            match r {
                Some(n) => self@ == n,
                None => self@ >= limb_base(),
            },
    {
        let mut i: usize = 1;
        while i < self.limbs.len()
            invariant
                1 <= i,
                forall|j: int| 1 <= j < i && j < self.limbs@.len() ==> self.limbs@[j] == 0,
            decreases self.limbs@.len() - i,
        {
            if self.limbs[i] != 0 {
                proof {
                    assert(pow_base(0) == 1);
                    assert(pow_base(1) == limb_base());
                    lemma_limbs_val_min_pow(self.limbs@, i as int);
                    lemma_pow_base_mono(1, i as nat);
                }
                return None;
            }
            i = i + 1;
        }
        proof {
            lemma_limbs_val_zeros(self.limbs@);
        }
        if self.limbs.len() == 0 {
            Some(0)
        } else {
            Some(self.limbs[0])
        }
    }

    /// Narrows to 256 bits; `None` exactly where the value does not fit.
    pub fn to_u256(&self) -> (r: Option<U256>)
        ensures
            match r {
                Some(u) => u.wf() && u@ == self@,
                None => self@ >= pow_base(4),
            },
    {
        let mut i: usize = 4;
        while i < self.limbs.len()
            invariant
                4 <= i,
                forall|j: int| 4 <= j < i && j < self.limbs@.len() ==> self.limbs@[j] == 0,
            decreases self.limbs@.len() - i,
        {
            if self.limbs[i] != 0 {
                proof {
                    lemma_limbs_val_min_pow(self.limbs@, i as int);
                    lemma_pow_base_mono(4, i as nat);
                }
                return None;
            }
            i = i + 1;
        }
        let mut v: Vec<u64> = Vec::new();
        let mut k: usize = 0;
        while k < 4
            invariant
                k <= 4,
                v@.len() == k,
                forall|j: int|
                    0 <= j < k ==> v@[j] == if j < self.limbs@.len() {
                        self.limbs@[j]
                    } else {
                        0u64
                    },
            decreases 4 - k,
        {
            if k < self.limbs.len() {
                v.push(self.limbs[k]);
            } else {
                v.push(0);
            }
            k = k + 1;
        }
        proof {
            let s = self.limbs@;
            if s.len() >= 4 {
                lemma_limbs_val_trunc(s, 4);
                assert(v@ =~= s.take(4));
            } else {
                lemma_limbs_val_trunc(v@, s.len() as int);
                assert(v@.take(s.len() as int) =~= s);
            }
        }
        Some(U256 { limbs: v })
    }
}

/// In two limb strings of equal length that agree above position `k` and
/// differ there, the one with the smaller limb at `k` has the smaller value.
proof fn lemma_lex_compare(s: Seq<u64>, t: Seq<u64>, k: int)
    requires
        s.len() == t.len(),
        0 <= k < s.len(),
        forall|j: int| k < j < s.len() ==> s[j] == t[j],
        s[k] < t[k],
    ensures
        limbs_val(s) < limbs_val(t),
{
    lemma_limbs_val_split(s, k);
    lemma_limbs_val_split(t, k);
    assert(s.skip(k).drop_first() =~= t.skip(k).drop_first());
    assert(s.skip(k)[0] == s[k]);
    assert(t.skip(k)[0] == t[k]);
    let ls = limbs_val(s.skip(k));
    let lt = limbs_val(t.skip(k));
    assert(ls < lt);
    lemma_limbs_val_bound(s.take(k));
    let p = pow_base(k as nat);
    let hs = limbs_val(s.take(k));
    assert(hs + p * ls < p * lt) by (nonlinear_arith)
        requires
            hs < p,
            ls + 1 <= lt,
            p >= 1,
    ;
    assert(pow_base(k as nat) >= 1) by {
        lemma_pow_base_mono(0, k as nat);
    }
}

/// The number of limbs up to and including the last nonzero one.
fn sig_len(v: &Vec<u64>) -> (n: usize)
    ensures
        n <= v@.len(),
        forall|j: int| n <= j < v@.len() ==> v@[j] == 0,
        n > 0 ==> v@[n - 1] != 0,
{
    let mut n: usize = v.len();
    while n > 0
        invariant
            n <= v@.len(),
            forall|j: int| n <= j < v@.len() ==> v@[j] == 0,
        decreases n,
    {
        if v[n - 1] != 0 {
            return n;
        }
        n = n - 1;
    }
    0
}

/// Whether one stored number is at most another, by value.
pub fn row_le(a: &RowNumber, b: &RowNumber) -> (r: bool)
    ensures
        r == (a@ <= b@),
{
    let na = sig_len(&a.limbs);
    let nb = sig_len(&b.limbs);
    proof {
        lemma_limbs_val_trunc(a.limbs@, na as int);
        lemma_limbs_val_trunc(b.limbs@, nb as int);
        lemma_limbs_val_bound(a.limbs@.take(na as int));
        lemma_limbs_val_bound(b.limbs@.take(nb as int));
    }
    if na < nb {
        proof {
            lemma_limbs_val_min_pow(b.limbs@, nb as int - 1);
            lemma_pow_base_mono(na as nat, (nb - 1) as nat);
        }
        return true;
    }
    if na > nb {
        proof {
            lemma_limbs_val_min_pow(a.limbs@, na as int - 1);
            lemma_pow_base_mono(nb as nat, (na - 1) as nat);
        }
        return false;
    }
    let mut i: usize = na;
    while i > 0
        invariant
            i <= na,
            na == nb,
            na <= a.limbs@.len(),
            nb <= b.limbs@.len(),
            a@ == limbs_val(a.limbs@.take(na as int)),
            b@ == limbs_val(b.limbs@.take(nb as int)),
            forall|j: int| i <= j < na ==> a.limbs@[j] == b.limbs@[j],
        decreases i,
    {
        let x: u64 = a.limbs[i - 1];
        let y: u64 = b.limbs[i - 1];
        if x != y {
            proof {
                let sa = a.limbs@.take(na as int);
                let sb = b.limbs@.take(nb as int);
                assert(sa.len() == na && sb.len() == nb);
                assert(sa[i as int - 1] == x && sb[i as int - 1] == y);
                assert(forall|j: int| i - 1 < j < sa.len() ==> sa[j] == sb[j]);
                if x < y {
                    lemma_lex_compare(sa, sb, i - 1);
                    assert(a@ == limbs_val(sa) && b@ == limbs_val(sb));
                    assert(a@ <= b@);
                } else {
                    lemma_lex_compare(sb, sa, i - 1);
                    assert(a@ == limbs_val(sa) && b@ == limbs_val(sb));
                    assert(!(a@ <= b@));
                }
            }
            return x < y;
        }
        i = i - 1;
    }
    proof {
        assert(a.limbs@.take(na as int) =~= b.limbs@.take(nb as int));
    }
    true
}

} // verus!
