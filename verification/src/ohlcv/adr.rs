//! Average Daily Range (ADR).
//!
//! The ADR is the simple moving average of the per-sample price range
//! `high - low`: a volatility gauge. It is a composite: the batch kernel
//! derives the range series and hands it to the SMA batch kernel, and
//! the incremental kernel is one SMA sliding step over ranges.

use vstd::prelude::*;

use crate::ohlcv::sma;
use crate::series::{all_ok_v, has_nan_v, scan_nan, vals};
use crate::value::{is_nan_v, nan_v, ok_v, sub_v, TAValue};
use crate::{KandError, TAConfig};

verus! {

/// The per-sample price range series.
pub open spec fn ranges_v(hs: Seq<int>, ls: Seq<int>) -> Seq<int> {
    Seq::new(hs.len(), |i: int| sub_v(hs[i], ls[i]))
}

/// The ADR value at index `i`: the SMA of the range series.
pub open spec fn adr_at(hs: Seq<int>, ls: Seq<int>, n: int, i: int) -> int {
    sma::sma_at(ranges_v(hs, ls), n, i)
}

/// The validation verdict of the batch kernel, checks in order:
/// parameter domain, emptiness, sufficiency, length agreement, then the
/// scan for undefined samples.
pub open spec fn adr_checks(
    cfg: TAConfig,
    hs: Seq<int>,
    ls: Seq<int>,
    n: int,
    out_len: int,
) -> Result<(), KandError> {
    if cfg.check_structure && n < 2 {
        Err(KandError::InvalidParameter)
    } else if cfg.check_structure && hs.len() == 0 {
        Err(KandError::InvalidData)
    } else if cfg.check_structure && hs.len() < n {
        Err(KandError::InsufficientData)
    } else if cfg.check_structure && (ls.len() != hs.len() || out_len != hs.len()) {
        Err(KandError::LengthMismatch)
    } else if cfg.check_nan && (has_nan_v(hs) || has_nan_v(ls)) {
        Err(KandError::NaNDetected)
    } else {
        Ok(())
    }
}

/// The validation verdict of the incremental kernel.
pub open spec fn adr_inc_checks(
    cfg: TAConfig,
    prev: int,
    nh: int,
    nl: int,
    oh: int,
    ol: int,
    n: int,
) -> Result<(), KandError> {
    if cfg.check_structure && n < 2 {
        Err(KandError::InvalidParameter)
    } else if cfg.check_nan && (is_nan_v(nh) || is_nan_v(nl) || is_nan_v(oh) || is_nan_v(ol)
        || is_nan_v(prev)) {
        Err(KandError::NaNDetected)
    } else {
        Ok(())
    }
}

/// The number of samples consumed before the first valid ADR value:
/// `period - 1`, exactly the SMA lookback.
pub fn lookback(param_period: usize) -> (res: Result<usize, KandError>)
    ensures
        param_period < 2 ==> res == Err::<usize, KandError>(KandError::InvalidParameter),
        param_period >= 2 ==> res == Ok::<usize, KandError>((param_period - 1) as usize),
{
    sma::lookback(param_period)
}

/// The ADR over whole high/low series, written into `output_adr` from
/// index `period - 1` on. Entries before that index follow the prefix
/// fill policy of the configuration. On any validation error the output
/// buffer is left untouched.
pub fn adr(
    cfg: TAConfig,
    input_high: &Vec<TAValue>,
    input_low: &Vec<TAValue>,
    param_period: usize,
    output_adr: &mut Vec<TAValue>,
) -> (res: Result<(), KandError>)
    requires
        all_ok_v(vals(input_high@)),
        all_ok_v(vals(input_low@)),
        all_ok_v(vals(old(output_adr)@)),
        !cfg.check_structure ==> 2 <= param_period <= input_high@.len() && input_low@.len()
            == input_high@.len() && old(output_adr)@.len() == input_high@.len(),
    ensures
        res == adr_checks(
            cfg,
            vals(input_high@),
            vals(input_low@),
            param_period as int,
            old(output_adr)@.len() as int,
        ),
        final(output_adr)@.len() == old(output_adr)@.len(),
        all_ok_v(vals(final(output_adr)@)),
        res is Err ==> final(output_adr)@ == old(output_adr)@,
        res is Ok ==> forall|i: int|
            param_period - 1 <= i < input_high@.len() ==> vals(final(output_adr)@)[i] == adr_at(
                vals(input_high@),
                vals(input_low@),
                param_period as int,
                i,
            ),
        res is Ok ==> forall|i: int|
            0 <= i < param_period - 1 ==> vals(final(output_adr)@)[i] == (
            if cfg.fill_invalid_with_nan {
                nan_v()
            } else {
                vals(old(output_adr)@)[i]
            }),
{
    let len = input_high.len();
    if cfg.check_structure {
        if param_period < 2 {
            return Err(KandError::InvalidParameter);
        }
        if len == 0 {
            return Err(KandError::InvalidData);
        }
        if len < param_period {
            return Err(KandError::InsufficientData);
        }
        if input_low.len() != len || output_adr.len() != len {
            return Err(KandError::LengthMismatch);
        }
    }
    if cfg.check_nan {
        if scan_nan(input_high) || scan_nan(input_low) {
            return Err(KandError::NaNDetected);
        }
    }
    let mut ranges: Vec<TAValue> = Vec::new();
    let mut i: usize = 0;
    while i < len
        invariant
            0 <= i <= len,
            len == input_high@.len(),
            input_low@.len() == len,
            all_ok_v(vals(input_high@)),
            all_ok_v(vals(input_low@)),
            ranges@.len() == i,
            forall|j: int|
                0 <= j < i ==> vals(ranges@)[j] == sub_v(
                    vals(input_high@)[j],
                    vals(input_low@)[j],
                ),
            all_ok_v(vals(ranges@)),
        decreases len - i,
    {
        let ghost pre = ranges@;
        proof {
            assert(vals(input_high@)[i as int] == input_high@[i as int]@);
            assert(vals(input_low@)[i as int] == input_low@[i as int]@);
        }
        let r = input_high[i].sub(input_low[i]);
        ranges.push(r);
        proof {
            assert forall|j: int| 0 <= j < i + 1 implies ok_v(#[trigger] vals(ranges@)[j]) && vals(
                ranges@,
            )[j] == sub_v(vals(input_high@)[j], vals(input_low@)[j]) by {
                assert(vals(ranges@)[j] == ranges@[j]@);
                if j < i {
                    assert(ranges@[j] == pre[j]);
                    assert(vals(pre)[j] == pre[j]@);
                }
            }
        }
        i += 1;
    }
    proof {
        assert(vals(ranges@) =~= ranges_v(vals(input_high@), vals(input_low@)));
    }
    let sub_cfg = TAConfig {
        check_structure: false,
        check_nan: false,
        fill_invalid_with_nan: cfg.fill_invalid_with_nan,
    };
    let res = sma::sma(sub_cfg, &ranges, param_period, output_adr);
    proof {
        assert(res is Ok);
    }
    res
}

/// The next ADR value from the previous one and the ranges entering and
/// leaving the window, in constant time.
pub fn adr_inc(
    cfg: TAConfig,
    prev_adr: TAValue,
    input_new_high: TAValue,
    input_new_low: TAValue,
    input_old_high: TAValue,
    input_old_low: TAValue,
    param_period: usize,
) -> (res: Result<TAValue, KandError>)
    requires
        ok_v(prev_adr@),
        ok_v(input_new_high@),
        ok_v(input_new_low@),
        ok_v(input_old_high@),
        ok_v(input_old_low@),
        !cfg.check_structure ==> param_period >= 2,
    ensures
        match res {
            Ok(v) => adr_inc_checks(
                cfg,
                prev_adr@,
                input_new_high@,
                input_new_low@,
                input_old_high@,
                input_old_low@,
                param_period as int,
            ) is Ok && v@ == sma::sma_step_v(
                prev_adr@,
                sub_v(input_new_high@, input_new_low@),
                sub_v(input_old_high@, input_old_low@),
                param_period as int,
            ) && ok_v(v@),
            Err(e) => adr_inc_checks(
                cfg,
                prev_adr@,
                input_new_high@,
                input_new_low@,
                input_old_high@,
                input_old_low@,
                param_period as int,
            ) == Err::<(), KandError>(e),
        },
{
    if cfg.check_structure {
        if param_period < 2 {
            return Err(KandError::InvalidParameter);
        }
    }
    if cfg.check_nan {
        if input_new_high.is_nan() || input_new_low.is_nan() || input_old_high.is_nan()
            || input_old_low.is_nan() || prev_adr.is_nan() {
            return Err(KandError::NaNDetected);
        }
    }
    let new_range = input_new_high.sub(input_new_low);
    let old_range = input_old_high.sub(input_old_low);
    let sub_cfg = TAConfig {
        check_structure: false,
        check_nan: false,
        fill_invalid_with_nan: cfg.fill_invalid_with_nan,
    };
    sma::sma_inc(sub_cfg, prev_adr, new_range, old_range, param_period)
}

/// Batch/incremental agreement for the ADR: at every index past the
/// first valid one, the batch value is exactly one incremental step
/// from the batch value at the previous index.
pub proof fn lemma_adr_batch_inc_equiv(hs: Seq<int>, ls: Seq<int>, n: int, i: int)
    requires
        2 <= n,
        n <= i < hs.len(),
    ensures
        adr_at(hs, ls, n, i) == sma::sma_step_v(
            adr_at(hs, ls, n, i - 1),
            sub_v(hs[i], ls[i]),
            sub_v(hs[i - n], ls[i - n]),
            n,
        ),
{
    let rs = ranges_v(hs, ls);
    sma::lemma_sma_batch_inc_equiv(rs, n, i);
    assert(rs[i] == sub_v(hs[i], ls[i]));
    assert(rs[i - n] == sub_v(hs[i - n], ls[i - n]));
}

} // verus!
