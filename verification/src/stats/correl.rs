//! Pearson correlation coefficient (CORREL) over a sliding window.
//!
//! The correlation over each window of `period` paired samples is
//! derived from five running sums: of each series, of each series
//! squared, and of the pairwise products. The batch kernel seeds the
//! sums over the first window and slides them forward with the same
//! constant-time updates the incremental kernel applies, so the two
//! agree exactly; the sums themselves are part of the output, and they
//! are the whole streaming state.
//!
//! The denominator is computed as `sqrt(d0) * sqrt(d1)` of the two
//! variance terms — equal in exact arithmetic to the square root of
//! their product, while keeping every intermediate inside the sample
//! range. A window with no variance yields the undefined value, never a
//! division by zero.

use vstd::prelude::*;

use crate::series::{all_ok_v, fill_nan_prefix, has_nan_v, scan_nan, sum_v, vals};
use crate::value::{add_v, div_v, from_n_v, is_nan_v, mul_v, nan_v, ok_v, sqrt_v, sub_v, TAValue};
use crate::{KandError, TAConfig};

verus! {

/// The running sum of squares of a sequence of sample values.
pub open spec fn sum_sq_v(xs: Seq<int>) -> int
    decreases xs.len(),
{
    if xs.len() == 0 {
        0
    } else {
        add_v(sum_sq_v(xs.drop_last()), mul_v(xs.last(), xs.last()))
    }
}

/// The running sum of pairwise products of two sequences of sample
/// values of equal length.
pub open spec fn sum_prod_v(xs: Seq<int>, ys: Seq<int>) -> int
    decreases xs.len(),
{
    if xs.len() == 0 {
        0
    } else {
        add_v(sum_prod_v(xs.drop_last(), ys.drop_last()), mul_v(xs.last(), ys.last()))
    }
}

/// The window sum of one series at index `i`: seeded over the first
/// window, then slid forward one sample at a time.
pub open spec fn csum_at(xs: Seq<int>, n: int, i: int) -> int
    decreases i,
{
    if 2 <= n && n - 1 < i {
        add_v(sub_v(csum_at(xs, n, i - 1), xs[i - n]), xs[i])
    } else {
        sum_v(xs.subrange(0, n))
    }
}

/// The window sum of squares of one series at index `i`.
pub open spec fn csumsq_at(xs: Seq<int>, n: int, i: int) -> int
    decreases i,
{
    if 2 <= n && n - 1 < i {
        add_v(mul_v(xs[i], xs[i]), sub_v(csumsq_at(xs, n, i - 1), mul_v(xs[i - n], xs[i - n])))
    } else {
        sum_sq_v(xs.subrange(0, n))
    }
}

/// The window sum of pairwise products at index `i`.
pub open spec fn cprod_at(xs: Seq<int>, ys: Seq<int>, n: int, i: int) -> int
    decreases i,
{
    if 2 <= n && n - 1 < i {
        add_v(
            mul_v(xs[i], ys[i]),
            sub_v(cprod_at(xs, ys, n, i - 1), mul_v(xs[i - n], ys[i - n])),
        )
    } else {
        sum_prod_v(xs.subrange(0, n), ys.subrange(0, n))
    }
}

/// The correlation derived from the five window sums:
/// `(n*s01 - s0*s1) / (sqrt(n*s0q - s0^2) * sqrt(n*s1q - s1^2))`, and
/// the undefined value unless the denominator is finite and positive.
pub open spec fn corr_of(n: int, s0: int, s1: int, s0q: int, s1q: int, s01: int) -> int {
    let num = sub_v(mul_v(from_n_v(n), s01), mul_v(s0, s1));
    let d0 = sub_v(mul_v(from_n_v(n), s0q), mul_v(s0, s0));
    let d1 = sub_v(mul_v(from_n_v(n), s1q), mul_v(s1, s1));
    let den = mul_v(sqrt_v(d0), sqrt_v(d1));
    if !is_nan_v(den) && den > 0 {
        div_v(num, den)
    } else {
        nan_v()
    }
}

/// The correlation value at index `i` (valid from `n - 1` on).
pub open spec fn correl_at(xs: Seq<int>, ys: Seq<int>, n: int, i: int) -> int {
    corr_of(
        n,
        csum_at(xs, n, i),
        csum_at(ys, n, i),
        csumsq_at(xs, n, i),
        csumsq_at(ys, n, i),
        cprod_at(xs, ys, n, i),
    )
}

/// The validation verdict of the batch kernel, checks in order:
/// parameter domain, emptiness, sufficiency, length agreement, then the
/// scan for undefined samples.
pub open spec fn correl_checks(
    cfg: TAConfig,
    xs: Seq<int>,
    ys: Seq<int>,
    n: int,
    out_lens: Seq<int>,
) -> Result<(), KandError> {
    if cfg.check_structure && n < 2 {
        Err(KandError::InvalidParameter)
    } else if cfg.check_structure && xs.len() == 0 {
        Err(KandError::InvalidData)
    } else if cfg.check_structure && xs.len() < n {
        Err(KandError::InsufficientData)
    } else if cfg.check_structure && !(ys.len() == xs.len() && out_lens == seq![
        xs.len() as int,
        xs.len() as int,
        xs.len() as int,
        xs.len() as int,
        xs.len() as int,
        xs.len() as int,
    ]) {
        Err(KandError::LengthMismatch)
    } else if cfg.check_nan && (has_nan_v(xs) || has_nan_v(ys)) {
        Err(KandError::NaNDetected)
    } else {
        Ok(())
    }
}

/// The validation verdict of the incremental kernel.
pub open spec fn correl_inc_checks(
    cfg: TAConfig,
    n: int,
    new0: int,
    new1: int,
    old0: int,
    old1: int,
    s0: int,
    s1: int,
    s0q: int,
    s1q: int,
    s01: int,
) -> Result<(), KandError> {
    if cfg.check_structure && n < 2 {
        Err(KandError::InvalidParameter)
    } else if cfg.check_nan && (is_nan_v(new0) || is_nan_v(new1) || is_nan_v(old0) || is_nan_v(
        old1,
    ) || is_nan_v(s0) || is_nan_v(s1) || is_nan_v(s0q) || is_nan_v(s1q) || is_nan_v(s01)) {
        Err(KandError::NaNDetected)
    } else {
        Ok(())
    }
}

/// The number of samples consumed before the first valid correlation:
/// `period - 1`. A period below 2 is outside the parameter domain.
pub fn lookback(param_period: usize) -> (res: Result<usize, KandError>)
    ensures
        param_period < 2 ==> res == Err::<usize, KandError>(KandError::InvalidParameter),
        param_period >= 2 ==> res == Ok::<usize, KandError>((param_period - 1) as usize),
{
    if param_period < 2 {
        return Err(KandError::InvalidParameter);
    }
    Ok(param_period - 1)
}

/// The correlation from the five window sums.
fn corr_from_sums(
    n: usize,
    s0: TAValue,
    s1: TAValue,
    s0q: TAValue,
    s1q: TAValue,
    s01: TAValue,
) -> (r: TAValue)
    requires
        ok_v(s0@),
        ok_v(s1@),
        ok_v(s0q@),
        ok_v(s1q@),
        ok_v(s01@),
    ensures
        r@ == corr_of(n as int, s0@, s1@, s0q@, s1q@, s01@),
        ok_v(r@),
{
    let nv = TAValue::from_period(n);
    let numerator = nv.mul(s01).sub(s0.mul(s1));
    let denominator_0 = nv.mul(s0q).sub(s0.mul(s0));
    let denominator_1 = nv.mul(s1q).sub(s1.mul(s1));
    let denominator = denominator_0.sqrt().mul(denominator_1.sqrt());
    if denominator.is_pos() {
        numerator.div(denominator)
    } else {
        TAValue::nan()
    }
}

/// The correlation of two whole series over a sliding window, written
/// into `output_correl` from index `period - 1` on, together with the
/// five window sums at each valid index. Entries before that index
/// follow the prefix fill policy of the configuration. On any
/// validation error every output buffer is left untouched.
#[verifier::rlimit(60)]
pub fn correl(
    cfg: TAConfig,
    input_0: &Vec<TAValue>,
    input_1: &Vec<TAValue>,
    param_period: usize,
    output_correl: &mut Vec<TAValue>,
    output_sum_0: &mut Vec<TAValue>,
    output_sum_1: &mut Vec<TAValue>,
    output_sum_0_sq: &mut Vec<TAValue>,
    output_sum_1_sq: &mut Vec<TAValue>,
    output_sum_01: &mut Vec<TAValue>,
) -> (res: Result<(), KandError>)
    requires
        all_ok_v(vals(input_0@)),
        all_ok_v(vals(input_1@)),
        all_ok_v(vals(old(output_correl)@)),
        all_ok_v(vals(old(output_sum_0)@)),
        all_ok_v(vals(old(output_sum_1)@)),
        all_ok_v(vals(old(output_sum_0_sq)@)),
        all_ok_v(vals(old(output_sum_1_sq)@)),
        all_ok_v(vals(old(output_sum_01)@)),
        !cfg.check_structure ==> 2 <= param_period <= input_0@.len() && input_1@.len()
            == input_0@.len() && old(output_correl)@.len() == input_0@.len() && old(
            output_sum_0,
        )@.len() == input_0@.len() && old(output_sum_1)@.len() == input_0@.len() && old(
            output_sum_0_sq,
        )@.len() == input_0@.len() && old(output_sum_1_sq)@.len() == input_0@.len() && old(
            output_sum_01,
        )@.len() == input_0@.len(),
    ensures
        res == correl_checks(
            cfg,
            vals(input_0@),
            vals(input_1@),
            param_period as int,
            seq![
                old(output_correl)@.len() as int,
                old(output_sum_0)@.len() as int,
                old(output_sum_1)@.len() as int,
                old(output_sum_0_sq)@.len() as int,
                old(output_sum_1_sq)@.len() as int,
                old(output_sum_01)@.len() as int,
            ],
        ),
        final(output_correl)@.len() == old(output_correl)@.len(),
        final(output_sum_0)@.len() == old(output_sum_0)@.len(),
        final(output_sum_1)@.len() == old(output_sum_1)@.len(),
        final(output_sum_0_sq)@.len() == old(output_sum_0_sq)@.len(),
        final(output_sum_1_sq)@.len() == old(output_sum_1_sq)@.len(),
        final(output_sum_01)@.len() == old(output_sum_01)@.len(),
        all_ok_v(vals(final(output_correl)@)),
        all_ok_v(vals(final(output_sum_0)@)),
        all_ok_v(vals(final(output_sum_1)@)),
        all_ok_v(vals(final(output_sum_0_sq)@)),
        all_ok_v(vals(final(output_sum_1_sq)@)),
        all_ok_v(vals(final(output_sum_01)@)),
        res is Err ==> final(output_correl)@ == old(output_correl)@ && final(output_sum_0)@ == old(
            output_sum_0,
        )@ && final(output_sum_1)@ == old(output_sum_1)@ && final(output_sum_0_sq)@ == old(
            output_sum_0_sq,
        )@ && final(output_sum_1_sq)@ == old(output_sum_1_sq)@ && final(output_sum_01)@ == old(
            output_sum_01,
        )@,
        res is Ok ==> forall|i: int|
            param_period - 1 <= i < input_0@.len() ==> vals(final(output_correl)@)[i] == correl_at(
                vals(input_0@),
                vals(input_1@),
                param_period as int,
                i,
            ) && vals(final(output_sum_0)@)[i] == csum_at(vals(input_0@), param_period as int, i)
                && vals(final(output_sum_1)@)[i] == csum_at(
                vals(input_1@),
                param_period as int,
                i,
            ) && vals(final(output_sum_0_sq)@)[i] == csumsq_at(
                vals(input_0@),
                param_period as int,
                i,
            ) && vals(final(output_sum_1_sq)@)[i] == csumsq_at(
                vals(input_1@),
                param_period as int,
                i,
            ) && vals(final(output_sum_01)@)[i] == cprod_at(
                vals(input_0@),
                vals(input_1@),
                param_period as int,
                i,
            ),
        res is Ok ==> forall|i: int|
            0 <= i < param_period - 1 ==> vals(final(output_correl)@)[i] == (
            if cfg.fill_invalid_with_nan {
                nan_v()
            } else {
                vals(old(output_correl)@)[i]
            }) && vals(final(output_sum_0)@)[i] == (if cfg.fill_invalid_with_nan {
                nan_v()
            } else {
                vals(old(output_sum_0)@)[i]
            }) && vals(final(output_sum_1)@)[i] == (if cfg.fill_invalid_with_nan {
                nan_v()
            } else {
                vals(old(output_sum_1)@)[i]
            }) && vals(final(output_sum_0_sq)@)[i] == (if cfg.fill_invalid_with_nan {
                nan_v()
            } else {
                vals(old(output_sum_0_sq)@)[i]
            }) && vals(final(output_sum_1_sq)@)[i] == (if cfg.fill_invalid_with_nan {
                nan_v()
            } else {
                vals(old(output_sum_1_sq)@)[i]
            }) && vals(final(output_sum_01)@)[i] == (if cfg.fill_invalid_with_nan {
                nan_v()
            } else {
                vals(old(output_sum_01)@)[i]
            }),
{
    let len = input_0.len();
    if cfg.check_structure {
        if param_period < 2 {
            return Err(KandError::InvalidParameter);
        }
        if len == 0 {
            return Err(KandError::InvalidData);
        }
        if len < param_period {
            return Err(KandError::InsufficientData);
        }
        if input_1.len() != len || output_correl.len() != len || output_sum_0.len() != len
            || output_sum_1.len() != len || output_sum_0_sq.len() != len || output_sum_1_sq.len()
            != len || output_sum_01.len() != len {
            return Err(KandError::LengthMismatch);
        }
    }
    if cfg.check_nan {
        if scan_nan(input_0) || scan_nan(input_1) {
            return Err(KandError::NaNDetected);
        }
    }
    let n = param_period;
    let lookback = n - 1;
    let ghost xs = vals(input_0@);
    let ghost ys = vals(input_1@);
    if cfg.fill_invalid_with_nan {
        fill_nan_prefix(output_correl, lookback);
        fill_nan_prefix(output_sum_0, lookback);
        fill_nan_prefix(output_sum_1, lookback);
        fill_nan_prefix(output_sum_0_sq, lookback);
        fill_nan_prefix(output_sum_1_sq, lookback);
        fill_nan_prefix(output_sum_01, lookback);
    }
    let ghost base_c = output_correl@;
    let ghost base_0 = output_sum_0@;
    let ghost base_1 = output_sum_1@;
    let ghost base_0q = output_sum_0_sq@;
    let ghost base_1q = output_sum_1_sq@;
    let ghost base_01 = output_sum_01@;
    proof {
        crate::series::lemma_all_ok_elems(old(output_correl)@);
        crate::series::lemma_all_ok_elems(old(output_sum_0)@);
        crate::series::lemma_all_ok_elems(old(output_sum_1)@);
        crate::series::lemma_all_ok_elems(old(output_sum_0_sq)@);
        crate::series::lemma_all_ok_elems(old(output_sum_1_sq)@);
        crate::series::lemma_all_ok_elems(old(output_sum_01)@);
        assert forall|j: int| 0 <= j < len implies ok_v(#[trigger] base_c[j]@) by {
            assert(vals(base_c)[j] == base_c[j]@);
        }
        assert forall|j: int| 0 <= j < len implies ok_v(#[trigger] base_0[j]@) by {
            assert(vals(base_0)[j] == base_0[j]@);
        }
        assert forall|j: int| 0 <= j < len implies ok_v(#[trigger] base_1[j]@) by {
            assert(vals(base_1)[j] == base_1[j]@);
        }
        assert forall|j: int| 0 <= j < len implies ok_v(#[trigger] base_0q[j]@) by {
            assert(vals(base_0q)[j] == base_0q[j]@);
        }
        assert forall|j: int| 0 <= j < len implies ok_v(#[trigger] base_1q[j]@) by {
            assert(vals(base_1q)[j] == base_1q[j]@);
        }
        assert forall|j: int| 0 <= j < len implies ok_v(#[trigger] base_01[j]@) by {
            assert(vals(base_01)[j] == base_01[j]@);
        }
        assert forall|j: int| 0 <= j < n - 1 implies #[trigger] base_c[j]@ == (
        if cfg.fill_invalid_with_nan {
            nan_v()
        } else {
            old(output_correl)@[j]@
        }) by {
            assert(vals(base_c)[j] == base_c[j]@);
        }
        assert forall|j: int| 0 <= j < n - 1 implies #[trigger] base_0[j]@ == (
        if cfg.fill_invalid_with_nan {
            nan_v()
        } else {
            old(output_sum_0)@[j]@
        }) by {
            assert(vals(base_0)[j] == base_0[j]@);
        }
        assert forall|j: int| 0 <= j < n - 1 implies #[trigger] base_1[j]@ == (
        if cfg.fill_invalid_with_nan {
            nan_v()
        } else {
            old(output_sum_1)@[j]@
        }) by {
            assert(vals(base_1)[j] == base_1[j]@);
        }
        assert forall|j: int| 0 <= j < n - 1 implies #[trigger] base_0q[j]@ == (
        if cfg.fill_invalid_with_nan {
            nan_v()
        } else {
            old(output_sum_0_sq)@[j]@
        }) by {
            assert(vals(base_0q)[j] == base_0q[j]@);
        }
        assert forall|j: int| 0 <= j < n - 1 implies #[trigger] base_1q[j]@ == (
        if cfg.fill_invalid_with_nan {
            nan_v()
        } else {
            old(output_sum_1_sq)@[j]@
        }) by {
            assert(vals(base_1q)[j] == base_1q[j]@);
        }
        assert forall|j: int| 0 <= j < n - 1 implies #[trigger] base_01[j]@ == (
        if cfg.fill_invalid_with_nan {
            nan_v()
        } else {
            old(output_sum_01)@[j]@
        }) by {
            assert(vals(base_01)[j] == base_01[j]@);
        }
    }
    let mut sum_0 = TAValue::zero();
    let mut sum_1 = TAValue::zero();
    let mut sum_0_sq = TAValue::zero();
    let mut sum_1_sq = TAValue::zero();
    let mut sum_01 = TAValue::zero();
    let mut j: usize = 0;
    proof {
        assert(xs.subrange(0, 0) =~= Seq::<int>::empty());
        assert(ys.subrange(0, 0) =~= Seq::<int>::empty());
    }
    while j < n
        invariant
            0 <= j <= n <= len,
            len == input_0@.len(),
            input_1@.len() == len,
            xs == vals(input_0@),
            ys == vals(input_1@),
            all_ok_v(xs),
            all_ok_v(ys),
            ok_v(sum_0@),
            ok_v(sum_1@),
            ok_v(sum_0_sq@),
            ok_v(sum_1_sq@),
            ok_v(sum_01@),
            sum_0@ == sum_v(xs.subrange(0, j as int)),
            sum_1@ == sum_v(ys.subrange(0, j as int)),
            sum_0_sq@ == sum_sq_v(xs.subrange(0, j as int)),
            sum_1_sq@ == sum_sq_v(ys.subrange(0, j as int)),
            sum_01@ == sum_prod_v(xs.subrange(0, j as int), ys.subrange(0, j as int)),
        decreases n - j,
    {
        proof {
            assert(vals(input_0@)[j as int] == input_0@[j as int]@);
            assert(vals(input_1@)[j as int] == input_1@[j as int]@);
        }
        let v0 = input_0[j];
        let v1 = input_1[j];
        sum_0 = sum_0.add(v0);
        sum_1 = sum_1.add(v1);
        sum_0_sq = sum_0_sq.add(v0.mul(v0));
        sum_1_sq = sum_1_sq.add(v1.mul(v1));
        sum_01 = sum_01.add(v0.mul(v1));
        proof {
            assert(xs.subrange(0, j + 1int).drop_last() =~= xs.subrange(0, j as int));
            assert(ys.subrange(0, j + 1int).drop_last() =~= ys.subrange(0, j as int));
            assert(xs.subrange(0, j + 1int).last() == xs[j as int]);
            assert(ys.subrange(0, j + 1int).last() == ys[j as int]);
        }
        j += 1;
    }
    let corr = corr_from_sums(n, sum_0, sum_1, sum_0_sq, sum_1_sq, sum_01);
    let ghost pc0 = output_correl@;
    let ghost p00 = output_sum_0@;
    let ghost p10 = output_sum_1@;
    let ghost p0q0 = output_sum_0_sq@;
    let ghost p1q0 = output_sum_1_sq@;
    let ghost p010 = output_sum_01@;
    output_correl.set(lookback, corr);
    output_sum_0.set(lookback, sum_0);
    output_sum_1.set(lookback, sum_1);
    output_sum_0_sq.set(lookback, sum_0_sq);
    output_sum_1_sq.set(lookback, sum_1_sq);
    output_sum_01.set(lookback, sum_01);
    proof {
        crate::series::lemma_set_vals(pc0, output_correl@, lookback as int, corr);
        crate::series::lemma_set_vals(p00, output_sum_0@, lookback as int, sum_0);
        crate::series::lemma_set_vals(p10, output_sum_1@, lookback as int, sum_1);
        crate::series::lemma_set_vals(p0q0, output_sum_0_sq@, lookback as int, sum_0_sq);
        crate::series::lemma_set_vals(p1q0, output_sum_1_sq@, lookback as int, sum_1_sq);
        crate::series::lemma_set_vals(p010, output_sum_01@, lookback as int, sum_01);
        assert forall|j2: int| 0 <= j2 < len implies ok_v(#[trigger] output_correl@[j2]@) by {
            if j2 != lookback {
                assert(output_correl@[j2] == base_c[j2]);
            }
        }
        crate::series::lemma_all_ok_intro(output_correl@);
        assert forall|j2: int| 0 <= j2 < len implies ok_v(#[trigger] output_sum_0@[j2]@) by {
            if j2 != lookback {
                assert(output_sum_0@[j2] == base_0[j2]);
            }
        }
        crate::series::lemma_all_ok_intro(output_sum_0@);
        assert forall|j2: int| 0 <= j2 < len implies ok_v(#[trigger] output_sum_1@[j2]@) by {
            if j2 != lookback {
                assert(output_sum_1@[j2] == base_1[j2]);
            }
        }
        crate::series::lemma_all_ok_intro(output_sum_1@);
        assert forall|j2: int| 0 <= j2 < len implies ok_v(#[trigger] output_sum_0_sq@[j2]@) by {
            if j2 != lookback {
                assert(output_sum_0_sq@[j2] == base_0q[j2]);
            }
        }
        crate::series::lemma_all_ok_intro(output_sum_0_sq@);
        assert forall|j2: int| 0 <= j2 < len implies ok_v(#[trigger] output_sum_1_sq@[j2]@) by {
            if j2 != lookback {
                assert(output_sum_1_sq@[j2] == base_1q[j2]);
            }
        }
        crate::series::lemma_all_ok_intro(output_sum_1_sq@);
        assert forall|j2: int| 0 <= j2 < len implies ok_v(#[trigger] output_sum_01@[j2]@) by {
            if j2 != lookback {
                assert(output_sum_01@[j2] == base_01[j2]);
            }
        }
        crate::series::lemma_all_ok_intro(output_sum_01@);
    }
    let mut i = n;
    while i < len
        invariant
            2 <= n <= len,
            n <= i <= len,
            len == input_0@.len(),
            input_1@.len() == len,
            output_correl@.len() == len,
            output_sum_0@.len() == len,
            output_sum_1@.len() == len,
            output_sum_0_sq@.len() == len,
            output_sum_1_sq@.len() == len,
            output_sum_01@.len() == len,
            base_c.len() == len,
            base_0.len() == len,
            base_1.len() == len,
            base_0q.len() == len,
            base_1q.len() == len,
            base_01.len() == len,
            xs == vals(input_0@),
            ys == vals(input_1@),
            all_ok_v(xs),
            all_ok_v(ys),
            forall|j2: int| 0 <= j2 < len ==> ok_v(#[trigger] base_c[j2]@),
            forall|j2: int| 0 <= j2 < len ==> ok_v(#[trigger] base_0[j2]@),
            forall|j2: int| 0 <= j2 < len ==> ok_v(#[trigger] base_1[j2]@),
            forall|j2: int| 0 <= j2 < len ==> ok_v(#[trigger] base_0q[j2]@),
            forall|j2: int| 0 <= j2 < len ==> ok_v(#[trigger] base_1q[j2]@),
            forall|j2: int| 0 <= j2 < len ==> ok_v(#[trigger] base_01[j2]@),
            ok_v(sum_0@),
            ok_v(sum_1@),
            ok_v(sum_0_sq@),
            ok_v(sum_1_sq@),
            ok_v(sum_01@),
            sum_0@ == csum_at(xs, n as int, i - 1),
            sum_1@ == csum_at(ys, n as int, i - 1),
            sum_0_sq@ == csumsq_at(xs, n as int, i - 1),
            sum_1_sq@ == csumsq_at(ys, n as int, i - 1),
            sum_01@ == cprod_at(xs, ys, n as int, i - 1),
            forall|j2: int| 0 <= j2 < n - 1 ==> #[trigger] output_correl@[j2] == base_c[j2],
            forall|j2: int| 0 <= j2 < n - 1 ==> #[trigger] output_sum_0@[j2] == base_0[j2],
            forall|j2: int| 0 <= j2 < n - 1 ==> #[trigger] output_sum_1@[j2] == base_1[j2],
            forall|j2: int| 0 <= j2 < n - 1 ==> #[trigger] output_sum_0_sq@[j2] == base_0q[j2],
            forall|j2: int| 0 <= j2 < n - 1 ==> #[trigger] output_sum_1_sq@[j2] == base_1q[j2],
            forall|j2: int| 0 <= j2 < n - 1 ==> #[trigger] output_sum_01@[j2] == base_01[j2],
            forall|j2: int|
                n - 1 <= j2 < i ==> #[trigger] vals(output_correl@)[j2] == correl_at(
                    xs,
                    ys,
                    n as int,
                    j2,
                ),
            forall|j2: int|
                n - 1 <= j2 < i ==> #[trigger] vals(output_sum_0@)[j2] == csum_at(xs, n as int, j2),
            forall|j2: int|
                n - 1 <= j2 < i ==> #[trigger] vals(output_sum_1@)[j2] == csum_at(ys, n as int, j2),
            forall|j2: int|
                n - 1 <= j2 < i ==> #[trigger] vals(output_sum_0_sq@)[j2] == csumsq_at(
                    xs,
                    n as int,
                    j2,
                ),
            forall|j2: int|
                n - 1 <= j2 < i ==> #[trigger] vals(output_sum_1_sq@)[j2] == csumsq_at(
                    ys,
                    n as int,
                    j2,
                ),
            forall|j2: int|
                n - 1 <= j2 < i ==> #[trigger] vals(output_sum_01@)[j2] == cprod_at(
                    xs,
                    ys,
                    n as int,
                    j2,
                ),
            all_ok_v(vals(output_correl@)),
            all_ok_v(vals(output_sum_0@)),
            all_ok_v(vals(output_sum_1@)),
            all_ok_v(vals(output_sum_0_sq@)),
            all_ok_v(vals(output_sum_1_sq@)),
            all_ok_v(vals(output_sum_01@)),
        decreases len - i,
    {
        proof {
            assert(vals(input_0@)[i as int] == input_0@[i as int]@);
            assert(vals(input_1@)[i as int] == input_1@[i as int]@);
            assert(vals(input_0@)[i - n] == input_0@[i - n]@);
            assert(vals(input_1@)[i - n] == input_1@[i - n]@);
        }
        let old_0 = input_0[i - n];
        let old_1 = input_1[i - n];
        let new_0 = input_0[i];
        let new_1 = input_1[i];
        sum_0 = sum_0.sub(old_0).add(new_0);
        sum_1 = sum_1.sub(old_1).add(new_1);
        sum_0_sq = new_0.mul(new_0).add(sum_0_sq.sub(old_0.mul(old_0)));
        sum_1_sq = new_1.mul(new_1).add(sum_1_sq.sub(old_1.mul(old_1)));
        sum_01 = new_0.mul(new_1).add(sum_01.sub(old_0.mul(old_1)));
        let corr_i = corr_from_sums(n, sum_0, sum_1, sum_0_sq, sum_1_sq, sum_01);
        let ghost qc = output_correl@;
        let ghost q0 = output_sum_0@;
        let ghost q1 = output_sum_1@;
        let ghost q0q = output_sum_0_sq@;
        let ghost q1q = output_sum_1_sq@;
        let ghost q01 = output_sum_01@;
        output_correl.set(i, corr_i);
        output_sum_0.set(i, sum_0);
        output_sum_1.set(i, sum_1);
        output_sum_0_sq.set(i, sum_0_sq);
        output_sum_1_sq.set(i, sum_1_sq);
        output_sum_01.set(i, sum_01);
        proof {
            crate::series::lemma_set_vals(qc, output_correl@, i as int, corr_i);
            crate::series::lemma_set_vals(q0, output_sum_0@, i as int, sum_0);
            crate::series::lemma_set_vals(q1, output_sum_1@, i as int, sum_1);
            crate::series::lemma_set_vals(q0q, output_sum_0_sq@, i as int, sum_0_sq);
            crate::series::lemma_set_vals(q1q, output_sum_1_sq@, i as int, sum_1_sq);
            crate::series::lemma_set_vals(q01, output_sum_01@, i as int, sum_01);
            crate::series::lemma_all_ok_elems(qc);
            crate::series::lemma_all_ok_elems(q0);
            crate::series::lemma_all_ok_elems(q1);
            crate::series::lemma_all_ok_elems(q0q);
            crate::series::lemma_all_ok_elems(q1q);
            crate::series::lemma_all_ok_elems(q01);
            assert forall|j2: int| 0 <= j2 < len implies ok_v(#[trigger] output_correl@[j2]@) by {
                if j2 != i {
                    assert(output_correl@[j2] == qc[j2]);
                }
            }
            crate::series::lemma_all_ok_intro(output_correl@);
            assert forall|j2: int| 0 <= j2 < len implies ok_v(#[trigger] output_sum_0@[j2]@) by {
                if j2 != i {
                    assert(output_sum_0@[j2] == q0[j2]);
                }
            }
            crate::series::lemma_all_ok_intro(output_sum_0@);
            assert forall|j2: int| 0 <= j2 < len implies ok_v(#[trigger] output_sum_1@[j2]@) by {
                if j2 != i {
                    assert(output_sum_1@[j2] == q1[j2]);
                }
            }
            crate::series::lemma_all_ok_intro(output_sum_1@);
            assert forall|j2: int| 0 <= j2 < len implies ok_v(#[trigger] output_sum_0_sq@[j2]@) by {
                if j2 != i {
                    assert(output_sum_0_sq@[j2] == q0q[j2]);
                }
            }
            crate::series::lemma_all_ok_intro(output_sum_0_sq@);
            assert forall|j2: int| 0 <= j2 < len implies ok_v(#[trigger] output_sum_1_sq@[j2]@) by {
                if j2 != i {
                    assert(output_sum_1_sq@[j2] == q1q[j2]);
                }
            }
            crate::series::lemma_all_ok_intro(output_sum_1_sq@);
            assert forall|j2: int| 0 <= j2 < len implies ok_v(#[trigger] output_sum_01@[j2]@) by {
                if j2 != i {
                    assert(output_sum_01@[j2] == q01[j2]);
                }
            }
            crate::series::lemma_all_ok_intro(output_sum_01@);
        }
        i += 1;
    }
    proof {
        assert forall|j2: int| 0 <= j2 < n - 1 implies #[trigger] vals(output_correl@)[j2] == (
        if cfg.fill_invalid_with_nan {
            nan_v()
        } else {
            vals(old(output_correl)@)[j2]
        }) by {
            assert(vals(output_correl@)[j2] == output_correl@[j2]@);
            assert(vals(old(output_correl)@)[j2] == old(output_correl)@[j2]@);
            assert(output_correl@[j2] == base_c[j2]);
        }
        assert forall|j2: int| 0 <= j2 < n - 1 implies #[trigger] vals(output_sum_0@)[j2] == (
        if cfg.fill_invalid_with_nan {
            nan_v()
        } else {
            vals(old(output_sum_0)@)[j2]
        }) by {
            assert(vals(output_sum_0@)[j2] == output_sum_0@[j2]@);
            assert(vals(old(output_sum_0)@)[j2] == old(output_sum_0)@[j2]@);
            assert(output_sum_0@[j2] == base_0[j2]);
        }
        assert forall|j2: int| 0 <= j2 < n - 1 implies #[trigger] vals(output_sum_1@)[j2] == (
        if cfg.fill_invalid_with_nan {
            nan_v()
        } else {
            vals(old(output_sum_1)@)[j2]
        }) by {
            assert(vals(output_sum_1@)[j2] == output_sum_1@[j2]@);
            assert(vals(old(output_sum_1)@)[j2] == old(output_sum_1)@[j2]@);
            assert(output_sum_1@[j2] == base_1[j2]);
        }
        assert forall|j2: int| 0 <= j2 < n - 1 implies #[trigger] vals(output_sum_0_sq@)[j2] == (
        if cfg.fill_invalid_with_nan {
            nan_v()
        } else {
            vals(old(output_sum_0_sq)@)[j2]
        }) by {
            assert(vals(output_sum_0_sq@)[j2] == output_sum_0_sq@[j2]@);
            assert(vals(old(output_sum_0_sq)@)[j2] == old(output_sum_0_sq)@[j2]@);
            assert(output_sum_0_sq@[j2] == base_0q[j2]);
        }
        assert forall|j2: int| 0 <= j2 < n - 1 implies #[trigger] vals(output_sum_1_sq@)[j2] == (
        if cfg.fill_invalid_with_nan {
            nan_v()
        } else {
            vals(old(output_sum_1_sq)@)[j2]
        }) by {
            assert(vals(output_sum_1_sq@)[j2] == output_sum_1_sq@[j2]@);
            assert(vals(old(output_sum_1_sq)@)[j2] == old(output_sum_1_sq)@[j2]@);
            assert(output_sum_1_sq@[j2] == base_1q[j2]);
        }
        assert forall|j2: int| 0 <= j2 < n - 1 implies #[trigger] vals(output_sum_01@)[j2] == (
        if cfg.fill_invalid_with_nan {
            nan_v()
        } else {
            vals(old(output_sum_01)@)[j2]
        }) by {
            assert(vals(output_sum_01@)[j2] == output_sum_01@[j2]@);
            assert(vals(old(output_sum_01)@)[j2] == old(output_sum_01)@[j2]@);
            assert(output_sum_01@[j2] == base_01[j2]);
        }
    }
    Ok(())
}

/// The latest correlation and the five slid window sums from the
/// samples entering and leaving the window and the previous sums, in
/// constant time. Returns
/// (correlation, sum 0, sum 1, sum of squares 0, sum of squares 1,
/// sum of products).
pub fn correl_inc(
    cfg: TAConfig,
    input_new_0: TAValue,
    input_new_1: TAValue,
    input_old_0: TAValue,
    input_old_1: TAValue,
    prev_sum_0: TAValue,
    prev_sum_1: TAValue,
    prev_sum_0_sq: TAValue,
    prev_sum_1_sq: TAValue,
    prev_sum_01: TAValue,
    param_period: usize,
) -> (res: Result<(TAValue, TAValue, TAValue, TAValue, TAValue, TAValue), KandError>)
    requires
        ok_v(input_new_0@),
        ok_v(input_new_1@),
        ok_v(input_old_0@),
        ok_v(input_old_1@),
        ok_v(prev_sum_0@),
        ok_v(prev_sum_1@),
        ok_v(prev_sum_0_sq@),
        ok_v(prev_sum_1_sq@),
        ok_v(prev_sum_01@),
    ensures
        match res {
            Ok(v) => correl_inc_checks(
                cfg,
                param_period as int,
                input_new_0@,
                input_new_1@,
                input_old_0@,
                input_old_1@,
                prev_sum_0@,
                prev_sum_1@,
                prev_sum_0_sq@,
                prev_sum_1_sq@,
                prev_sum_01@,
            ) is Ok && {
                let s0 = add_v(sub_v(prev_sum_0@, input_old_0@), input_new_0@);
                let s1 = add_v(sub_v(prev_sum_1@, input_old_1@), input_new_1@);
                let s0q = add_v(
                    mul_v(input_new_0@, input_new_0@),
                    sub_v(prev_sum_0_sq@, mul_v(input_old_0@, input_old_0@)),
                );
                let s1q = add_v(
                    mul_v(input_new_1@, input_new_1@),
                    sub_v(prev_sum_1_sq@, mul_v(input_old_1@, input_old_1@)),
                );
                let s01 = add_v(
                    mul_v(input_new_0@, input_new_1@),
                    sub_v(prev_sum_01@, mul_v(input_old_0@, input_old_1@)),
                );
                v.0@ == corr_of(param_period as int, s0, s1, s0q, s1q, s01) && v.1@ == s0 && v.2@
                    == s1 && v.3@ == s0q && v.4@ == s1q && v.5@ == s01 && ok_v(v.0@) && ok_v(v.1@)
                    && ok_v(v.2@) && ok_v(v.3@) && ok_v(v.4@) && ok_v(v.5@)
            },
            Err(e) => correl_inc_checks(
                cfg,
                param_period as int,
                input_new_0@,
                input_new_1@,
                input_old_0@,
                input_old_1@,
                prev_sum_0@,
                prev_sum_1@,
                prev_sum_0_sq@,
                prev_sum_1_sq@,
                prev_sum_01@,
            ) == Err::<(), KandError>(e),
        },
{
    if cfg.check_structure {
        if param_period < 2 {
            return Err(KandError::InvalidParameter);
        }
    }
    if cfg.check_nan {
        if input_new_0.is_nan() || input_new_1.is_nan() || input_old_0.is_nan()
            || input_old_1.is_nan() || prev_sum_0.is_nan() || prev_sum_1.is_nan()
            || prev_sum_0_sq.is_nan() || prev_sum_1_sq.is_nan() || prev_sum_01.is_nan() {
            return Err(KandError::NaNDetected);
        }
    }
    let new_sum_0 = prev_sum_0.sub(input_old_0).add(input_new_0);
    let new_sum_1 = prev_sum_1.sub(input_old_1).add(input_new_1);
    let new_sum_0_sq = input_new_0.mul(input_new_0).add(
        prev_sum_0_sq.sub(input_old_0.mul(input_old_0)),
    );
    let new_sum_1_sq = input_new_1.mul(input_new_1).add(
        prev_sum_1_sq.sub(input_old_1.mul(input_old_1)),
    );
    let new_sum_01 = input_new_0.mul(input_new_1).add(
        prev_sum_01.sub(input_old_0.mul(input_old_1)),
    );
    let new_correl = corr_from_sums(
        param_period,
        new_sum_0,
        new_sum_1,
        new_sum_0_sq,
        new_sum_1_sq,
        new_sum_01,
    );
    Ok((new_correl, new_sum_0, new_sum_1, new_sum_0_sq, new_sum_1_sq, new_sum_01))
}

/// Batch/incremental agreement for the correlation: at every index past
/// the first valid one, the batch sums are exactly one incremental step
/// from the batch sums at the previous index, and the batch correlation
/// is the correlation of the stepped sums.
pub proof fn lemma_correl_batch_inc_equiv(xs: Seq<int>, ys: Seq<int>, n: int, i: int)
    requires
        2 <= n,
        n <= i,
    ensures
        csum_at(xs, n, i) == add_v(sub_v(csum_at(xs, n, i - 1), xs[i - n]), xs[i]),
        csum_at(ys, n, i) == add_v(sub_v(csum_at(ys, n, i - 1), ys[i - n]), ys[i]),
        csumsq_at(xs, n, i) == add_v(
            mul_v(xs[i], xs[i]),
            sub_v(csumsq_at(xs, n, i - 1), mul_v(xs[i - n], xs[i - n])),
        ),
        csumsq_at(ys, n, i) == add_v(
            mul_v(ys[i], ys[i]),
            sub_v(csumsq_at(ys, n, i - 1), mul_v(ys[i - n], ys[i - n])),
        ),
        cprod_at(xs, ys, n, i) == add_v(
            mul_v(xs[i], ys[i]),
            sub_v(cprod_at(xs, ys, n, i - 1), mul_v(xs[i - n], ys[i - n])),
        ),
        correl_at(xs, ys, n, i) == corr_of(
            n,
            csum_at(xs, n, i),
            csum_at(ys, n, i),
            csumsq_at(xs, n, i),
            csumsq_at(ys, n, i),
            cprod_at(xs, ys, n, i),
        ),
{
}

/// A window without variance has no defined correlation: when the
/// variance term of the first series vanishes, the result is the
/// undefined value — never a division by zero.
pub proof fn lemma_correl_zero_variance(n: int, s0: int, s1: int, s0q: int, s1q: int, s01: int)
    requires
        mul_v(from_n_v(n), s0q) == mul_v(s0, s0),
    ensures
        corr_of(n, s0, s1, s0q, s1q, s01) == nan_v(),
{
    let d0 = sub_v(mul_v(from_n_v(n), s0q), mul_v(s0, s0));
    if is_nan_v(mul_v(from_n_v(n), s0q)) {
        assert(d0 == nan_v());
        assert(sqrt_v(d0) == nan_v());
    } else {
        assert(d0 == 0);
        assert(crate::value::is_isqrt(0, 0)) by (nonlinear_arith);
        assert(exists|r: int| crate::value::is_isqrt(0, r));
        let r = crate::value::isqrt_v(0);
        assert(crate::value::is_isqrt(0, r));
        assert(r == 0) by (nonlinear_arith)
            requires
                0 <= r,
                r * r <= 0,
        ;
        assert(sqrt_v(d0) == 0);
        let d1s = sqrt_v(sub_v(mul_v(from_n_v(n), s1q), mul_v(s1, s1)));
        if is_nan_v(d1s) {
            assert(mul_v(sqrt_v(d0), d1s) == nan_v());
        } else {
            assert(crate::value::round_div(0, crate::value::sc()) == 0) by {
                vstd::arithmetic::div_mod::lemma_basic_div(
                    crate::value::sc(),
                    2 * crate::value::sc(),
                );
            }
            assert(mul_v(0, d1s) == 0);
        }
    }
}

} // verus!
