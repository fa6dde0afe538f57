//! The convolution kernel: a square matrix of non-negative fixed-point
//! weights whose entries sum to exactly `WEIGHT_SCALE`, so that the matrix
//! carries a total mass of one.

use vstd::prelude::*;

use crate::FilterError;

verus! {

/// Fixed-point denominator for kernel weights: a weight `w` stands for the
/// fraction `w / WEIGHT_SCALE`.
pub const WEIGHT_SCALE: u64 = 1048576;

/// Sum of the first `i` entries of a normalized weight sequence.
pub open spec fn weight_sum(s: Seq<u64>, i: int) -> int
    decreases i,
{
    if i <= 0 {
        0
    } else {
        weight_sum(s, i - 1) + s[i - 1]
    }
}

/// Sum of the first `i` entries of a raw weight sequence.
pub open spec fn raw_sum(s: Seq<u32>, i: int) -> int
    decreases i,
{
    if i <= 0 {
        0
    } else {
        raw_sum(s, i - 1) + s[i - 1]
    }
}

/// Total of a raw weight sequence.
pub open spec fn raw_total(s: Seq<u32>) -> int {
    raw_sum(s, s.len() as int)
}

/// Sum of the first `i` normalized quotients `s[m] * WEIGHT_SCALE / total`.
pub open spec fn quotient_sum(s: Seq<u32>, total: int, i: int) -> int
    decreases i,
{
    if i <= 0 {
        0
    } else {
        quotient_sum(s, total, i - 1) + s[i - 1] * (WEIGHT_SCALE as int) / total
    }
}

/// A square convolution kernel: `side * side` fixed-point weights stored
/// row-major, summing to exactly `WEIGHT_SCALE`.
pub struct Kernel {
    pub side: usize,
    pub weights: Vec<u64>,
}

/// Partial sums of non-negative weights never decrease.
pub proof fn lemma_weight_sum_mono(s: Seq<u64>, i: int, j: int)
    requires
        0 <= i <= j <= s.len(),
    ensures
        weight_sum(s, i) <= weight_sum(s, j),
    decreases j,
{
    if i < j {
        lemma_weight_sum_mono(s, i, j - 1);
    }
}

/// A weight-sequence prefix sum depends only on the entries of the prefix.
pub proof fn lemma_weight_sum_prefix(s1: Seq<u64>, s2: Seq<u64>, i: int)
    requires
        0 <= i <= s1.len(),
        i <= s2.len(),
        forall|m: int| 0 <= m < i ==> s1[m] == s2[m],
    ensures
        weight_sum(s1, i) == weight_sum(s2, i),
    decreases i,
{
    if i > 0 {
        lemma_weight_sum_prefix(s1, s2, i - 1);
    }
}

/// Updating one entry shifts the prefix sum by the difference.
pub proof fn lemma_weight_sum_update(s: Seq<u64>, c: int, v: u64, i: int)
    requires
        0 <= c < s.len(),
        c < i <= s.len(),
    ensures
        weight_sum(s.update(c, v), i) == weight_sum(s, i) - s[c] + v,
    decreases i,
{
    if i - 1 == c {
        lemma_weight_sum_prefix(s.update(c, v), s, i - 1);
    } else {
        lemma_weight_sum_update(s, c, v, i - 1);
    }
}

/// Every entry is bounded by the whole sum.
pub proof fn lemma_weight_sum_element(s: Seq<u64>, m: int)
    requires
        0 <= m < s.len(),
    ensures
        s[m] <= weight_sum(s, s.len() as int),
{
    lemma_weight_sum_mono(s, 0, m);
    lemma_weight_sum_mono(s, m + 1, s.len() as int);
}

impl Kernel {
    /// Well-formedness: a non-degenerate square matrix whose weights carry a
    /// total mass of exactly one.
    pub open spec fn wf(self) -> bool {
        &&& 1 <= self.side <= 65535
        &&& self.weights@.len() == self.side * self.side
        &&& weight_sum(self.weights@, self.weights@.len() as int) == WEIGHT_SCALE
    }

    /// Index of the central entry, which receives the rounding remainder of
    /// the normalization so the total lands exactly on `WEIGHT_SCALE`.
    pub open spec fn center_spec(side: int) -> int {
        (side / 2) * side + side / 2
    }

    /// Normalizes raw non-negative weights into a kernel: every entry becomes
    /// `raw * WEIGHT_SCALE / total` (rounded down), and the center entry
    /// absorbs what the rounding dropped, so the entries sum to exactly
    /// `WEIGHT_SCALE`. Degenerate input (zero side, oversized side, a length
    /// that is not `side * side`, or an all-zero mass) is a usage error.
    pub fn from_raw_weights(side: usize, raw: &Vec<u32>) -> (r: Result<Kernel, FilterError>)
        ensures
            r is Ok <==> (1 <= side <= 65535 && raw@.len() == side * side && raw_total(raw@) > 0),
            r matches Ok(k) ==> {
                &&& k.wf()
                &&& k.side == side
                &&& forall|m: int|
                    0 <= m < raw@.len() && m != Self::center_spec(side as int)
                        ==> k.weights@[m] == raw@[m] * (WEIGHT_SCALE as int) / raw_total(raw@)
                &&& k.weights@[Self::center_spec(side as int)] == raw@[Self::center_spec(
                    side as int,
                )] * (WEIGHT_SCALE as int) / raw_total(raw@) + WEIGHT_SCALE - quotient_sum(
                    raw@,
                    raw_total(raw@),
                    raw@.len() as int,
                )
            },
            r matches Err(e) ==> e == FilterError::InvalidParameterError,
    {
        if side < 1 || side > 65535 {
            return Err(FilterError::InvalidParameterError);
        }
        proof {
            assert(side * side <= 65535 * 65535) by (nonlinear_arith)
                requires
                    side <= 65535,
            ;
        }
        let n = side * side;
        if raw.len() != n {
            return Err(FilterError::InvalidParameterError);
        }
        let mut total: u64 = 0;
        let mut i: usize = 0;
        while i < n
            invariant
                i <= n,
                n == raw@.len(),
                n <= 65535 * 65535,
                total == raw_sum(raw@, i as int),
                total <= i * 0xffff_ffffu64,
            decreases n - i,
        {
            total = total + (raw[i] as u64);
            i = i + 1;
        }
        if total == 0 {
            return Err(FilterError::InvalidParameterError);
        }
        let ghost tot = total as int;
        let mut weights: Vec<u64> = Vec::new();
        let mut qtot: u64 = 0;
        let mut i: usize = 0;
        while i < n
            invariant
                i <= n,
                n == raw@.len(),
                0 < total,
                tot == total as int,
                tot == raw_total(raw@),
                weights@.len() == i,
                forall|m: int|
                    0 <= m < i ==> weights@[m] == raw@[m] * (WEIGHT_SCALE as int) / tot,
                qtot == quotient_sum(raw@, tot, i as int),
                qtot == weight_sum(weights@, i as int),
                qtot * tot <= (WEIGHT_SCALE as int) * raw_sum(raw@, i as int),
            decreases n - i,
        {
            proof {
                lemma_raw_sum_mono(raw@, i as int, n as int);
                assert(qtot <= WEIGHT_SCALE) by (nonlinear_arith)
                    requires
                        qtot * tot <= (WEIGHT_SCALE as int) * raw_sum(raw@, i as int),
                        raw_sum(raw@, i as int) <= tot,
                        tot > 0,
                        qtot >= 0,
                ;
            }
            let q = (raw[i] as u64) * WEIGHT_SCALE / total;
            proof {
                let a = raw@[i as int] * (WEIGHT_SCALE as int);
                vstd::arithmetic::div_mod::lemma_fundamental_div_mod(a, tot);
                assert((qtot + q) * tot <= (WEIGHT_SCALE as int) * raw_sum(raw@, i as int + 1))
                    by (nonlinear_arith)
                    requires
                        qtot * tot <= (WEIGHT_SCALE as int) * raw_sum(raw@, i as int),
                        q == a / tot,
                        a == tot * (a / tot) + a % tot,
                        a % tot >= 0,
                        a == raw@[i as int] * (WEIGHT_SCALE as int),
                        raw_sum(raw@, i as int + 1) == raw_sum(raw@, i as int) + raw@[i as int],
                        tot > 0,
                ;
                lemma_weight_sum_prefix(weights@.push(q), weights@, i as int);
            }
            qtot = qtot + q;
            weights.push(q);
            i = i + 1;
        }
        proof {
            assert(qtot <= WEIGHT_SCALE) by (nonlinear_arith)
                requires
                    qtot * tot <= (WEIGHT_SCALE as int) * raw_total(raw@),
                    raw_total(raw@) == tot,
                    tot > 0,
                    qtot >= 0,
            ;
        }
        let rem = WEIGHT_SCALE - qtot;
        proof {
            assert((side / 2) * side + side / 2 < side * side) by (nonlinear_arith)
                requires
                    1 <= side,
            ;
            assert((side / 2) * side <= side * side) by (nonlinear_arith)
                requires
                    1 <= side,
            ;
        }
        let center = (side / 2) * side + side / 2;
        let ghost before = weights@;
        let c = weights[center] + rem;
        weights[center] = c;
        proof {
            lemma_weight_sum_update(before, center as int, c, n as int);
        }
        Ok(Kernel { side, weights })
    }
}

/// Partial sums of non-negative raw weights never decrease.
pub proof fn lemma_raw_sum_mono(s: Seq<u32>, i: int, j: int)
    requires
        0 <= i <= j <= s.len(),
    ensures
        raw_sum(s, i) <= raw_sum(s, j),
    decreases j,
{
    if i < j {
        lemma_raw_sum_mono(s, i, j - 1);
    }
}

} // verus!
