//! Exponential Moving Average (EMA).
//!
//! The EMA is a recursive average: each new value moves the previous one
//! toward the newest sample by a smoothing factor. The first valid value,
//! at index `period - 1`, is the plain mean of the first window; the
//! smoothing factor defaults to `2 / (period + 1)` and can be supplied
//! explicitly. The batch kernel applies exactly the recurrence the
//! incremental kernel applies, so the two agree exactly.

use vstd::prelude::*;

use crate::series::{all_ok_v, fill_nan_prefix, has_nan_v, scan_nan, sum_prefix, sum_v, vals};
use crate::value::{add_v, div_v, from_n_v, is_nan_v, mul_v, nan_v, ok_v, sub_v, TAValue};
use crate::{KandError, TAConfig};

verus! {

/// The smoothing factor in use: the given one, or `2 / (period + 1)`.
pub open spec fn ema_k_v(n: int, param_k: Option<TAValue>) -> int {
    match param_k {
        Some(k) => k@,
        None => div_v(from_n_v(2), from_n_v(n + 1)),
    }
}

/// One recursive step: the previous average moved toward the newest
/// sample by the smoothing factor `k`.
pub open spec fn ema_step_v(prev: int, newv: int, k: int) -> int {
    add_v(mul_v(sub_v(newv, prev), k), prev)
}

/// The EMA value at index `i` (valid from `n - 1` on): the mean of the
/// first window, then one recursive step per later index.
pub open spec fn ema_at(xs: Seq<int>, n: int, k: int, i: int) -> int
    decreases i,
{
    if 2 <= n && n - 1 < i {
        ema_step_v(ema_at(xs, n, k, i - 1), xs[i], k)
    } else {
        div_v(sum_v(xs.subrange(0, n)), from_n_v(n))
    }
}

/// The validation verdict of the batch kernel, checks in order:
/// parameter domain, emptiness, sufficiency, length agreement, then the
/// scan for undefined samples.
pub open spec fn ema_checks(cfg: TAConfig, xs: Seq<int>, n: int, out_len: int) -> Result<
    (),
    KandError,
> {
    if cfg.check_structure && n < 2 {
        Err(KandError::InvalidParameter)
    } else if cfg.check_structure && xs.len() == 0 {
        Err(KandError::InvalidData)
    } else if cfg.check_structure && xs.len() < n {
        Err(KandError::InsufficientData)
    } else if cfg.check_structure && out_len != xs.len() {
        Err(KandError::LengthMismatch)
    } else if cfg.check_nan && has_nan_v(xs) {
        Err(KandError::NaNDetected)
    } else {
        Ok(())
    }
}

/// The validation verdict of the incremental kernel.
pub open spec fn ema_inc_checks(cfg: TAConfig, price: int, prev: int, n: int) -> Result<
    (),
    KandError,
> {
    if cfg.check_structure && n < 2 {
        Err(KandError::InvalidParameter)
    } else if cfg.check_nan && (is_nan_v(price) || is_nan_v(prev)) {
        Err(KandError::NaNDetected)
    } else {
        Ok(())
    }
}

/// The number of samples consumed before the first valid EMA value:
/// `period - 1`. A period below 2 is outside the parameter domain.
pub fn lookback(param_period: usize) -> (res: Result<usize, KandError>)
    ensures
        param_period < 2 ==> res == Err::<usize, KandError>(KandError::InvalidParameter),
        param_period >= 2 ==> res == Ok::<usize, KandError>((param_period - 1) as usize),
{
    if param_period < 2 {
        return Err(KandError::InvalidParameter);
    }
    Ok(param_period - 1)
}

/// The EMA over a whole series, written into `output_ema` from index
/// `period - 1` on. Entries before that index are filled with the
/// undefined value when the configuration asks for it, and otherwise
/// keep the caller's buffer contents. On any validation error the
/// output buffer is left untouched.
pub fn ema(
    cfg: TAConfig,
    input: &Vec<TAValue>,
    param_period: usize,
    param_k: Option<TAValue>,
    output_ema: &mut Vec<TAValue>,
) -> (res: Result<(), KandError>)
    requires
        all_ok_v(vals(input@)),
        all_ok_v(vals(old(output_ema)@)),
        match param_k {
            Some(k) => ok_v(k@),
            None => true,
        },
        !cfg.check_structure ==> 2 <= param_period <= input@.len() && old(output_ema)@.len()
            == input@.len(),
    ensures
        res == ema_checks(cfg, vals(input@), param_period as int, old(output_ema)@.len() as int),
        final(output_ema)@.len() == old(output_ema)@.len(),
        all_ok_v(vals(final(output_ema)@)),
        res is Err ==> final(output_ema)@ == old(output_ema)@,
        res is Ok ==> forall|i: int|
            param_period - 1 <= i < input@.len() ==> vals(final(output_ema)@)[i] == ema_at(
                vals(input@),
                param_period as int,
                ema_k_v(param_period as int, param_k),
                i,
            ),
        res is Ok ==> forall|i: int|
            0 <= i < param_period - 1 ==> vals(final(output_ema)@)[i] == (
            if cfg.fill_invalid_with_nan {
                nan_v()
            } else {
                vals(old(output_ema)@)[i]
            }),
{
    let len = input.len();
    if cfg.check_structure {
        if param_period < 2 {
            return Err(KandError::InvalidParameter);
        }
        if len == 0 {
            return Err(KandError::InvalidData);
        }
        if len < param_period {
            return Err(KandError::InsufficientData);
        }
        if output_ema.len() != len {
            return Err(KandError::LengthMismatch);
        }
    }
    if cfg.check_nan {
        if scan_nan(input) {
            return Err(KandError::NaNDetected);
        }
    }
    let n = param_period;
    let lookback = n - 1;
    if cfg.fill_invalid_with_nan {
        fill_nan_prefix(output_ema, lookback);
    }
    let ghost base = output_ema@;
    proof {
        assert forall|j: int| 0 <= j < base.len() implies ok_v(#[trigger] base[j]@) && (0 <= j < n
            - 1 ==> base[j]@ == (if cfg.fill_invalid_with_nan {
            nan_v()
        } else {
            old(output_ema)@[j]@
        })) by {
            assert(vals(base)[j] == base[j]@);
            assert(vals(old(output_ema)@)[j] == old(output_ema)@[j]@);
        }
    }
    let kv = match param_k {
        Some(k) => k,
        None => TAValue::from_period(2).div(TAValue::from_period_succ(n)),
    };
    let sum = sum_prefix(input, n);
    let nv = TAValue::from_period(n);
    let mut prev = sum.div(nv);
    output_ema.set(lookback, prev);
    proof {
        assert forall|j: int| 0 <= j < output_ema@.len() implies ok_v(
            #[trigger] vals(output_ema@)[j],
        ) && (0 <= j < n - 1 ==> vals(output_ema@)[j] == (if cfg.fill_invalid_with_nan {
            nan_v()
        } else {
            vals(old(output_ema)@)[j]
        })) by {
            assert(vals(output_ema@)[j] == output_ema@[j]@);
            assert(vals(old(output_ema)@)[j] == old(output_ema)@[j]@);
            if j != lookback {
                assert(output_ema@[j] == base[j]);
            }
        }
        assert(vals(output_ema@)[lookback as int] == prev@);
    }
    let mut i = n;
    while i < len
        invariant
            2 <= n <= len,
            n <= i <= len,
            len == input@.len(),
            output_ema@.len() == len,
            old(output_ema)@.len() == len,
            all_ok_v(vals(input@)),
            all_ok_v(vals(old(output_ema)@)),
            ok_v(prev@),
            ok_v(kv@),
            kv@ == ema_k_v(n as int, param_k),
            prev@ == ema_at(vals(input@), n as int, kv@, i - 1),
            forall|j: int|
                0 <= j < n - 1 ==> vals(output_ema@)[j] == (if cfg.fill_invalid_with_nan {
                    nan_v()
                } else {
                    vals(old(output_ema)@)[j]
                }),
            forall|j: int|
                n - 1 <= j < i ==> vals(output_ema@)[j] == ema_at(
                    vals(input@),
                    n as int,
                    kv@,
                    j,
                ),
            all_ok_v(vals(output_ema@)),
        decreases len - i,
    {
        let ghost pre = output_ema@;
        proof {
            assert(vals(input@)[i as int] == input@[i as int]@);
        }
        prev = input[i].sub(prev).mul(kv).add(prev);
        output_ema.set(i, prev);
        proof {
            assert(prev@ == ema_at(vals(input@), n as int, kv@, i as int));
            assert forall|j: int| 0 <= j < output_ema@.len() implies ok_v(
                #[trigger] vals(output_ema@)[j],
            ) && (0 <= j < n - 1 ==> vals(output_ema@)[j] == (if cfg.fill_invalid_with_nan {
                nan_v()
            } else {
                vals(old(output_ema)@)[j]
            })) && (n - 1 <= j < i + 1 ==> vals(output_ema@)[j] == ema_at(
                vals(input@),
                n as int,
                kv@,
                j,
            )) by {
                assert(vals(output_ema@)[j] == output_ema@[j]@);
                assert(vals(pre)[j] == pre[j]@);
                assert(vals(old(output_ema)@)[j] == old(output_ema)@[j]@);
                if j != i {
                    assert(output_ema@[j] == pre[j]);
                }
            }
        }
        i += 1;
    }
    Ok(())
}

/// The next EMA value from the newest sample and the previous EMA, in
/// constant time.
pub fn ema_inc(
    cfg: TAConfig,
    input_price: TAValue,
    prev_ema: TAValue,
    param_period: usize,
    param_k: Option<TAValue>,
) -> (res: Result<TAValue, KandError>)
    requires
        ok_v(input_price@),
        ok_v(prev_ema@),
        match param_k {
            Some(k) => ok_v(k@),
            None => true,
        },
        !cfg.check_structure ==> param_period >= 2,
    ensures
        match res {
            Ok(v) => ema_inc_checks(cfg, input_price@, prev_ema@, param_period as int) is Ok && v@
                == ema_step_v(
                prev_ema@,
                input_price@,
                ema_k_v(param_period as int, param_k),
            ) && ok_v(v@),
            Err(e) => ema_inc_checks(cfg, input_price@, prev_ema@, param_period as int) == Err::<
                (),
                KandError,
            >(e),
        },
{
    if cfg.check_structure {
        if param_period < 2 {
            return Err(KandError::InvalidParameter);
        }
    }
    if cfg.check_nan {
        if input_price.is_nan() || prev_ema.is_nan() {
            return Err(KandError::NaNDetected);
        }
    }
    let kv = match param_k {
        Some(k) => k,
        None => TAValue::from_period(2).div(TAValue::from_period_succ(param_period)),
    };
    Ok(input_price.sub(prev_ema).mul(kv).add(prev_ema))
}

/// Batch/incremental agreement for the EMA: at every index past the
/// first valid one, the batch value is exactly one incremental step
/// from the batch value at the previous index.
pub proof fn lemma_ema_batch_inc_equiv(xs: Seq<int>, n: int, k: int, i: int)
    requires
        2 <= n,
        n <= i,
    ensures
        ema_at(xs, n, k, i) == ema_step_v(ema_at(xs, n, k, i - 1), xs[i], k),
{
}

} // verus!
