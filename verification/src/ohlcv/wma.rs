//! Weighted Moving Average (WMA).
//!
//! The WMA weights the samples of each window linearly, the newest
//! sample weighted `period`, the oldest weighted 1, and divides by the
//! weight total `period * (period + 1) / 2`. The batch kernel evaluates
//! each window afresh; the incremental kernel evaluates one window
//! handed to it newest-first, with exactly the same accumulation.

use vstd::prelude::*;

use crate::series::{all_ok_v, fill_nan_prefix, has_nan_v, scan_nan, vals};
use crate::value::{add_v, div_v, from_n_v, mul_v, nan_v, ok_v, TAValue};
use crate::{KandError, TAConfig};

verus! {

/// The first `j` terms of the weighted sum of the window ending at
/// index `i`: term `t` is `xs[i - t] * (n - t)`, newest first.
pub open spec fn wma_wsum_at(xs: Seq<int>, i: int, n: int, j: int) -> int
    decreases j,
{
    if j <= 0 {
        0
    } else {
        add_v(wma_wsum_at(xs, i, n, j - 1), mul_v(xs[i - (j - 1)], from_n_v(n - (j - 1))))
    }
}

/// The first `j` terms of the weighted sum of an explicit window given
/// newest-first: term `t` is `ws[t] * (n - t)`.
pub open spec fn wma_wsum_win(ws: Seq<int>, n: int, j: int) -> int
    decreases j,
{
    if j <= 0 {
        0
    } else {
        add_v(wma_wsum_win(ws, n, j - 1), mul_v(ws[j - 1], from_n_v(n - (j - 1))))
    }
}

/// The weight total `n * (n + 1) / 2`, as a sample value.
pub open spec fn wma_denom_v(n: int) -> int {
    div_v(mul_v(from_n_v(n), from_n_v(n + 1)), from_n_v(2))
}

/// The WMA value at index `i` (valid from `n - 1` on).
pub open spec fn wma_at(xs: Seq<int>, n: int, i: int) -> int {
    div_v(wma_wsum_at(xs, i, n, n), wma_denom_v(n))
}

/// The WMA of one explicit window given newest-first.
pub open spec fn wma_win_v(ws: Seq<int>, n: int) -> int {
    div_v(wma_wsum_win(ws, n, n), wma_denom_v(n))
}

/// The validation verdict of the batch kernel, checks in order:
/// parameter domain, emptiness, length agreement, sufficiency, then the
/// scan for undefined samples.
pub open spec fn wma_checks(cfg: TAConfig, xs: Seq<int>, n: int, out_len: int) -> Result<
    (),
    KandError,
> {
    if cfg.check_structure && n < 2 {
        Err(KandError::InvalidParameter)
    } else if cfg.check_structure && xs.len() == 0 {
        Err(KandError::InvalidData)
    } else if cfg.check_structure && out_len != xs.len() {
        Err(KandError::LengthMismatch)
    } else if cfg.check_structure && xs.len() < n {
        Err(KandError::InsufficientData)
    } else if cfg.check_nan && has_nan_v(xs) {
        Err(KandError::NaNDetected)
    } else {
        Ok(())
    }
}

/// The validation verdict of the incremental kernel, checks in order:
/// parameter domain, window length, then the scan for undefined
/// samples.
pub open spec fn wma_inc_checks(cfg: TAConfig, ws: Seq<int>, n: int) -> Result<(), KandError> {
    if cfg.check_structure && n < 2 {
        Err(KandError::InvalidParameter)
    } else if cfg.check_structure && ws.len() != n {
        Err(KandError::LengthMismatch)
    } else if cfg.check_nan && has_nan_v(ws) {
        Err(KandError::NaNDetected)
    } else {
        Ok(())
    }
}

/// The number of samples consumed before the first valid WMA value:
/// `period - 1`. A period below 2 is outside the parameter domain.
pub fn lookback(opt_period: usize) -> (res: Result<usize, KandError>)
    ensures
        opt_period < 2 ==> res == Err::<usize, KandError>(KandError::InvalidParameter),
        opt_period >= 2 ==> res == Ok::<usize, KandError>((opt_period - 1) as usize),
{
    if opt_period < 2 {
        return Err(KandError::InvalidParameter);
    }
    Ok(opt_period - 1)
}

/// The WMA over a whole series, written into `output` from index
/// `period - 1` on. Entries before that index follow the prefix fill
/// policy of the configuration. On any validation error the output
/// buffer is left untouched.
pub fn wma(
    cfg: TAConfig,
    input: &Vec<TAValue>,
    opt_period: usize,
    output: &mut Vec<TAValue>,
) -> (res: Result<(), KandError>)
    requires
        all_ok_v(vals(input@)),
        all_ok_v(vals(old(output)@)),
        !cfg.check_structure ==> 2 <= opt_period <= input@.len() && old(output)@.len()
            == input@.len(),
    ensures
        res == wma_checks(cfg, vals(input@), opt_period as int, old(output)@.len() as int),
        final(output)@.len() == old(output)@.len(),
        all_ok_v(vals(final(output)@)),
        res is Err ==> final(output)@ == old(output)@,
        res is Ok ==> forall|i: int|
            opt_period - 1 <= i < input@.len() ==> vals(final(output)@)[i] == wma_at(
                vals(input@),
                opt_period as int,
                i,
            ),
        res is Ok ==> forall|i: int|
            0 <= i < opt_period - 1 ==> vals(final(output)@)[i] == (if cfg.fill_invalid_with_nan {
                nan_v()
            } else {
                vals(old(output)@)[i]
            }),
{
    let len = input.len();
    if cfg.check_structure {
        if opt_period < 2 {
            return Err(KandError::InvalidParameter);
        }
        if len == 0 {
            return Err(KandError::InvalidData);
        }
        if output.len() != len {
            return Err(KandError::LengthMismatch);
        }
        if len < opt_period {
            return Err(KandError::InsufficientData);
        }
    }
    if cfg.check_nan {
        if scan_nan(input) {
            return Err(KandError::NaNDetected);
        }
    }
    let n = opt_period;
    let lookback = n - 1;
    if cfg.fill_invalid_with_nan {
        fill_nan_prefix(output, lookback);
    }
    let ghost base = output@;
    proof {
        assert forall|j: int| 0 <= j < base.len() implies ok_v(#[trigger] base[j]@) && (0 <= j < n
            - 1 ==> base[j]@ == (if cfg.fill_invalid_with_nan {
            nan_v()
        } else {
            old(output)@[j]@
        })) by {
            assert(vals(base)[j] == base[j]@);
            assert(vals(old(output)@)[j] == old(output)@[j]@);
        }
    }
    let denominator = TAValue::from_period(n).mul(TAValue::from_period_succ(n)).div(
        TAValue::from_period(2),
    );
    let mut i = lookback;
    while i < len
        invariant
            2 <= n <= len,
            n - 1 <= i <= len,
            len == input@.len(),
            output@.len() == len,
            old(output)@.len() == len,
            base.len() == len,
            all_ok_v(vals(input@)),
            all_ok_v(vals(old(output)@)),
            forall|j: int| 0 <= j < base.len() ==> ok_v(#[trigger] base[j]@),
            forall|j: int|
                0 <= j < n - 1 ==> base[j]@ == (if cfg.fill_invalid_with_nan {
                    nan_v()
                } else {
                    old(output)@[j]@
                }),
            ok_v(denominator@),
            denominator@ == wma_denom_v(n as int),
            forall|j: int| 0 <= j < n - 1 ==> output@[j] == base[j],
            forall|j: int| i <= j < len ==> output@[j] == base[j],
            forall|j: int|
                n - 1 <= j < i ==> vals(output@)[j] == wma_at(vals(input@), n as int, j),
            all_ok_v(vals(output@)),
        decreases len - i,
    {
        let mut weighted_sum = TAValue::zero();
        let mut j: usize = 0;
        while j < n
            invariant
                0 <= j <= n <= len,
                n - 1 <= i < len,
                len == input@.len(),
                all_ok_v(vals(input@)),
                ok_v(weighted_sum@),
                weighted_sum@ == wma_wsum_at(vals(input@), i as int, n as int, j as int),
            decreases n - j,
        {
            proof {
                assert(vals(input@)[i - j] == input@[i - j]@);
            }
            weighted_sum = weighted_sum.add(input[i - j].mul(TAValue::from_period(n - j)));
            j += 1;
        }
        let ghost pre = output@;
        let v = weighted_sum.div(denominator);
        output.set(i, v);
        proof {
            assert forall|j2: int| 0 <= j2 < output@.len() implies ok_v(
                #[trigger] vals(output@)[j2],
            ) && (j2 != i ==> output@[j2] == pre[j2]) && (n - 1 <= j2 < i + 1 ==> vals(
                output@,
            )[j2] == wma_at(vals(input@), n as int, j2)) by {
                assert(vals(output@)[j2] == output@[j2]@);
                assert(vals(pre)[j2] == pre[j2]@);
                if j2 != i {
                    assert(output@[j2] == pre[j2]);
                }
            }
        }
        i += 1;
    }
    proof {
        assert forall|j: int| 0 <= j < n - 1 implies vals(output@)[j] == (
        if cfg.fill_invalid_with_nan {
            nan_v()
        } else {
            vals(old(output)@)[j]
        }) by {
            assert(vals(output@)[j] == output@[j]@);
            assert(vals(old(output)@)[j] == old(output)@[j]@);
            assert(output@[j] == base[j]);
        }
    }
    Ok(())
}

/// The WMA of one window of samples, given newest-first.
pub fn wma_inc(cfg: TAConfig, input_window: &Vec<TAValue>, opt_period: usize) -> (res: Result<
    TAValue,
    KandError,
>)
    requires
        all_ok_v(vals(input_window@)),
        !cfg.check_structure ==> opt_period >= 2 && input_window@.len() == opt_period,
    ensures
        match res {
            Ok(v) => wma_inc_checks(cfg, vals(input_window@), opt_period as int) is Ok && v@
                == wma_win_v(vals(input_window@), opt_period as int) && ok_v(v@),
            Err(e) => wma_inc_checks(cfg, vals(input_window@), opt_period as int) == Err::<
                (),
                KandError,
            >(e),
        },
{
    if cfg.check_structure {
        if opt_period < 2 {
            return Err(KandError::InvalidParameter);
        }
        if input_window.len() != opt_period {
            return Err(KandError::LengthMismatch);
        }
    }
    if cfg.check_nan {
        if scan_nan(input_window) {
            return Err(KandError::NaNDetected);
        }
    }
    let n = opt_period;
    let denominator = TAValue::from_period(n).mul(TAValue::from_period_succ(n)).div(
        TAValue::from_period(2),
    );
    let mut weighted_sum = TAValue::zero();
    let mut j: usize = 0;
    while j < n
        invariant
            0 <= j <= n,
            input_window@.len() == n,
            all_ok_v(vals(input_window@)),
            ok_v(weighted_sum@),
            weighted_sum@ == wma_wsum_win(vals(input_window@), n as int, j as int),
        decreases n - j,
    {
        proof {
            assert(vals(input_window@)[j as int] == input_window@[j as int]@);
        }
        weighted_sum = weighted_sum.add(input_window[j].mul(TAValue::from_period(n - j)));
        j += 1;
    }
    Ok(weighted_sum.div(denominator))
}

/// The weighted sums agree term by term when the explicit window holds
/// the same samples as the window ending at index `i`, newest first.
proof fn lemma_wma_wsum_agree(xs: Seq<int>, ws: Seq<int>, n: int, i: int, j: int)
    requires
        0 <= j <= n,
        forall|t: int| 0 <= t < n ==> ws[t] == xs[i - t],
    ensures
        wma_wsum_win(ws, n, j) == wma_wsum_at(xs, i, n, j),
    decreases j,
{
    if j > 0 {
        lemma_wma_wsum_agree(xs, ws, n, i, j - 1);
    }
}

/// Batch/incremental agreement for the WMA: the batch value at a valid
/// index equals the incremental kernel's value on the window ending
/// there, handed newest-first.
pub proof fn lemma_wma_batch_inc_equiv(xs: Seq<int>, ws: Seq<int>, n: int, i: int)
    requires
        2 <= n,
        n - 1 <= i < xs.len(),
        forall|t: int| 0 <= t < n ==> ws[t] == xs[i - t],
    ensures
        wma_win_v(ws, n) == wma_at(xs, n, i),
{
    lemma_wma_wsum_agree(xs, ws, n, i, n);
}

} // verus!
