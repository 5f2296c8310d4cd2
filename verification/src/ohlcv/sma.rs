//! Simple Moving Average (SMA).
//!
//! The SMA smooths a series by taking the arithmetic mean over a sliding
//! window of `period` samples. The first valid output stands at index
//! `period - 1`; from there the batch kernel slides the window forward
//! with the same constant-time update the incremental kernel applies, so
//! the two agree exactly on every valid index.

use vstd::prelude::*;

use crate::series::{all_ok_v, fill_nan_prefix, has_nan_v, scan_nan, sum_prefix, sum_v, vals};
use crate::value::{add_v, div_v, from_n_v, is_nan_v, nan_v, ok_v, sub_v, TAValue};
use crate::{KandError, TAConfig};

verus! {

/// One sliding-window step: the previous mean plus the scaled difference
/// between the sample entering the window and the sample leaving it.
pub open spec fn sma_step_v(prev: int, newv: int, oldv: int, n: int) -> int {
    add_v(prev, div_v(sub_v(newv, oldv), from_n_v(n)))
}

/// The SMA value at index `i` (valid from `n - 1` on): the mean of the
/// first window, then one sliding step per later index.
pub open spec fn sma_at(xs: Seq<int>, n: int, i: int) -> int
    decreases i,
{
    if 2 <= n && n - 1 < i {
        sma_step_v(sma_at(xs, n, i - 1), xs[i], xs[i - n], n)
    } else {
        div_v(sum_v(xs.subrange(0, n)), from_n_v(n))
    }
}

/// The validation verdict of the batch kernel, checks in order:
/// parameter domain, emptiness, sufficiency, length agreement, then the
/// scan for undefined samples.
pub open spec fn sma_checks(cfg: TAConfig, xs: Seq<int>, n: int, out_len: int) -> Result<
    (),
    KandError,
> {
    if cfg.check_structure && n < 2 {
        Err(KandError::InvalidParameter)
    } else if cfg.check_structure && xs.len() == 0 {
        Err(KandError::InvalidData)
    } else if cfg.check_structure && xs.len() < n {
        Err(KandError::InsufficientData)
    } else if cfg.check_structure && out_len != xs.len() {
        Err(KandError::LengthMismatch)
    } else if cfg.check_nan && has_nan_v(xs) {
        Err(KandError::NaNDetected)
    } else {
        Ok(())
    }
}

/// The validation verdict of the incremental kernel.
pub open spec fn sma_inc_checks(cfg: TAConfig, prev: int, newv: int, oldv: int, n: int) -> Result<
    (),
    KandError,
> {
    if cfg.check_structure && n < 2 {
        Err(KandError::InvalidParameter)
    } else if cfg.check_nan && (is_nan_v(prev) || is_nan_v(newv) || is_nan_v(oldv)) {
        Err(KandError::NaNDetected)
    } else {
        Ok(())
    }
}

/// The number of samples consumed before the first valid SMA value:
/// `period - 1`. A period below 2 is outside the parameter domain.
pub fn lookback(param_period: usize) -> (res: Result<usize, KandError>)
    ensures
        param_period < 2 ==> res == Err::<usize, KandError>(KandError::InvalidParameter),
        param_period >= 2 ==> res == Ok::<usize, KandError>((param_period - 1) as usize),
{
    if param_period < 2 {
        return Err(KandError::InvalidParameter);
    }
    Ok(param_period - 1)
}

/// The SMA over a whole series, written into `output_sma` from index
/// `period - 1` on. Entries before that index are filled with the
/// undefined value when the configuration asks for it, and otherwise
/// keep the caller's buffer contents. On any validation error the
/// output buffer is left untouched.
pub fn sma(
    cfg: TAConfig,
    input: &Vec<TAValue>,
    param_period: usize,
    output_sma: &mut Vec<TAValue>,
) -> (res: Result<(), KandError>)
    requires
        all_ok_v(vals(input@)),
        all_ok_v(vals(old(output_sma)@)),
        !cfg.check_structure ==> 2 <= param_period <= input@.len() && old(output_sma)@.len()
            == input@.len(),
    ensures
        res == sma_checks(cfg, vals(input@), param_period as int, old(output_sma)@.len() as int),
        final(output_sma)@.len() == old(output_sma)@.len(),
        all_ok_v(vals(final(output_sma)@)),
        res is Err ==> final(output_sma)@ == old(output_sma)@,
        res is Ok ==> forall|i: int|
            param_period - 1 <= i < input@.len() ==> vals(final(output_sma)@)[i] == sma_at(
                vals(input@),
                param_period as int,
                i,
            ),
        res is Ok ==> forall|i: int|
            0 <= i < param_period - 1 ==> vals(final(output_sma)@)[i] == (
            if cfg.fill_invalid_with_nan {
                nan_v()
            } else {
                vals(old(output_sma)@)[i]
            }),
{
    let len = input.len();
    if cfg.check_structure {
        if param_period < 2 {
            return Err(KandError::InvalidParameter);
        }
        if len == 0 {
            return Err(KandError::InvalidData);
        }
        if len < param_period {
            return Err(KandError::InsufficientData);
        }
        if output_sma.len() != len {
            return Err(KandError::LengthMismatch);
        }
    }
    if cfg.check_nan {
        if scan_nan(input) {
            return Err(KandError::NaNDetected);
        }
    }
    let n = param_period;
    let lookback = n - 1;
    if cfg.fill_invalid_with_nan {
        fill_nan_prefix(output_sma, lookback);
    }
    let ghost base = output_sma@;
    proof {
        assert forall|j: int| 0 <= j < base.len() implies ok_v(#[trigger] base[j]@) && (0 <= j < n
            - 1 ==> base[j]@ == (if cfg.fill_invalid_with_nan {
            nan_v()
        } else {
            old(output_sma)@[j]@
        })) by {
            assert(vals(base)[j] == base[j]@);
            assert(vals(old(output_sma)@)[j] == old(output_sma)@[j]@);
        }
    }
    let sum = sum_prefix(input, n);
    let nv = TAValue::from_period(n);
    let mut prev = sum.div(nv);
    output_sma.set(lookback, prev);
    proof {
        assert forall|j: int| 0 <= j < output_sma@.len() implies ok_v(
            #[trigger] vals(output_sma@)[j],
        ) && (0 <= j < n - 1 ==> vals(output_sma@)[j] == (if cfg.fill_invalid_with_nan {
            nan_v()
        } else {
            vals(old(output_sma)@)[j]
        })) by {
            assert(vals(output_sma@)[j] == output_sma@[j]@);
            assert(vals(old(output_sma)@)[j] == old(output_sma)@[j]@);
            if j != lookback {
                assert(output_sma@[j] == base[j]);
            }
        }
        assert(vals(output_sma@)[lookback as int] == prev@);
    }
    let mut i = n;
    while i < len
        invariant
            2 <= n <= len,
            n <= i <= len,
            len == input@.len(),
            output_sma@.len() == len,
            old(output_sma)@.len() == len,
            all_ok_v(vals(input@)),
            all_ok_v(vals(old(output_sma)@)),
            ok_v(prev@),
            nv@ == from_n_v(n as int),
            prev@ == sma_at(vals(input@), n as int, i - 1),
            forall|j: int|
                0 <= j < n - 1 ==> vals(output_sma@)[j] == (if cfg.fill_invalid_with_nan {
                    nan_v()
                } else {
                    vals(old(output_sma)@)[j]
                }),
            forall|j: int|
                n - 1 <= j < i ==> vals(output_sma@)[j] == sma_at(vals(input@), n as int, j),
            all_ok_v(vals(output_sma@)),
        decreases len - i,
    {
        let ghost pre = output_sma@;
        proof {
            assert(vals(input@)[i as int] == input@[i as int]@);
            assert(vals(input@)[i - n] == input@[i - n]@);
        }
        let step = input[i].sub(input[i - n]).div(nv);
        prev = prev.add(step);
        output_sma.set(i, prev);
        proof {
            assert(prev@ == sma_at(vals(input@), n as int, i as int));
            assert forall|j: int| 0 <= j < output_sma@.len() implies ok_v(
                #[trigger] vals(output_sma@)[j],
            ) && (0 <= j < n - 1 ==> vals(output_sma@)[j] == (if cfg.fill_invalid_with_nan {
                nan_v()
            } else {
                vals(old(output_sma)@)[j]
            })) && (n - 1 <= j < i + 1 ==> vals(output_sma@)[j] == sma_at(
                vals(input@),
                n as int,
                j,
            )) by {
                assert(vals(output_sma@)[j] == output_sma@[j]@);
                assert(vals(pre)[j] == pre[j]@);
                assert(vals(old(output_sma)@)[j] == old(output_sma)@[j]@);
                if j != i {
                    assert(output_sma@[j] == pre[j]);
                }
            }
        }
        i += 1;
    }
    Ok(())
}

/// The next SMA value from the previous one, the sample entering the
/// window and the sample leaving it, in constant time.
pub fn sma_inc(
    cfg: TAConfig,
    prev_sma: TAValue,
    input_new_price: TAValue,
    input_old_price: TAValue,
    param_period: usize,
) -> (res: Result<TAValue, KandError>)
    requires
        ok_v(prev_sma@),
        ok_v(input_new_price@),
        ok_v(input_old_price@),
        !cfg.check_structure ==> param_period >= 2,
    ensures
        match res {
            Ok(v) => sma_inc_checks(
                cfg,
                prev_sma@,
                input_new_price@,
                input_old_price@,
                param_period as int,
            ) is Ok && v@ == sma_step_v(
                prev_sma@,
                input_new_price@,
                input_old_price@,
                param_period as int,
            ) && ok_v(v@),
            Err(e) => sma_inc_checks(
                cfg,
                prev_sma@,
                input_new_price@,
                input_old_price@,
                param_period as int,
            ) == Err::<(), KandError>(e),
        },
{
    if cfg.check_structure {
        if param_period < 2 {
            return Err(KandError::InvalidParameter);
        }
    }
    if cfg.check_nan {
        if prev_sma.is_nan() || input_new_price.is_nan() || input_old_price.is_nan() {
            return Err(KandError::NaNDetected);
        }
    }
    let nv = TAValue::from_period(param_period);
    Ok(prev_sma.add(input_new_price.sub(input_old_price).div(nv)))
}

/// Batch/incremental agreement for the SMA: at every index past the
/// first valid one, the batch value is exactly one incremental step
/// from the batch value at the previous index.
pub proof fn lemma_sma_batch_inc_equiv(xs: Seq<int>, n: int, i: int)
    requires
        2 <= n,
        n <= i,
    ensures
        sma_at(xs, n, i) == sma_step_v(sma_at(xs, n, i - 1), xs[i], xs[i - n], n),
{
}

} // verus!
