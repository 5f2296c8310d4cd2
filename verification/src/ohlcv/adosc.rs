//! Accumulation/Distribution Oscillator (ADOSC).
//!
//! The oscillator is a composite: the difference between a fast and a
//! slow exponential moving average of the A/D line. Its streaming state
//! is exactly the union of its sub-indicators' states — the running A/D
//! total and the two smoothed averages — and its lookback is the slow
//! average's lookback, since the fast average becomes valid earlier.
//! Both kernels route through the A/D and EMA kernels, so the
//! batch/incremental agreement of the parts carries over to the whole.

use vstd::prelude::*;

use crate::ohlcv::ad;
use crate::ohlcv::ema;
use crate::series::{all_ok_v, fill_nan_prefix, has_nan_v, scan_nan, vals};
use crate::value::{div_v, from_n_v, is_nan_v, nan_v, ok_v, sub_v, TAValue};
use crate::{KandError, TAConfig};

verus! {

/// The A/D line of the four input series, as a value sequence.
pub open spec fn ad_seq(hs: Seq<int>, ls: Seq<int>, cs: Seq<int>, vs: Seq<int>) -> Seq<int> {
    Seq::new(hs.len(), |i: int| ad::ad_at(hs, ls, cs, vs, i))
}

/// The default smoothing factor for a period: `2 / (period + 1)`.
pub open spec fn adosc_k_v(n: int) -> int {
    div_v(from_n_v(2), from_n_v(n + 1))
}

/// The fast EMA of the A/D line at index `i`.
pub open spec fn adosc_fast_at(
    hs: Seq<int>,
    ls: Seq<int>,
    cs: Seq<int>,
    vs: Seq<int>,
    fast: int,
    i: int,
) -> int {
    ema::ema_at(ad_seq(hs, ls, cs, vs), fast, adosc_k_v(fast), i)
}

/// The slow EMA of the A/D line at index `i`.
pub open spec fn adosc_slow_at(
    hs: Seq<int>,
    ls: Seq<int>,
    cs: Seq<int>,
    vs: Seq<int>,
    slow: int,
    i: int,
) -> int {
    ema::ema_at(ad_seq(hs, ls, cs, vs), slow, adosc_k_v(slow), i)
}

/// The oscillator at index `i`: fast EMA minus slow EMA.
pub open spec fn adosc_at(
    hs: Seq<int>,
    ls: Seq<int>,
    cs: Seq<int>,
    vs: Seq<int>,
    fast: int,
    slow: int,
    i: int,
) -> int {
    sub_v(adosc_fast_at(hs, ls, cs, vs, fast, i), adosc_slow_at(hs, ls, cs, vs, slow, i))
}

/// The validation verdict of the batch kernel, checks in order:
/// parameter domain, emptiness, sufficiency, length agreement, then the
/// scan for undefined samples.
pub open spec fn adosc_checks(
    cfg: TAConfig,
    hs: Seq<int>,
    ls: Seq<int>,
    cs: Seq<int>,
    vs: Seq<int>,
    fast: int,
    slow: int,
    out_lens: Seq<int>,
) -> Result<(), KandError> {
    if cfg.check_structure && (fast < 2 || slow < 2 || fast >= slow) {
        Err(KandError::InvalidParameter)
    } else if cfg.check_structure && hs.len() == 0 {
        Err(KandError::InvalidData)
    } else if cfg.check_structure && hs.len() < slow {
        Err(KandError::InsufficientData)
    } else if cfg.check_structure && !(ls.len() == hs.len() && cs.len() == hs.len() && vs.len()
        == hs.len() && out_lens == seq![
        hs.len() as int,
        hs.len() as int,
        hs.len() as int,
        hs.len() as int,
    ]) {
        Err(KandError::LengthMismatch)
    } else if cfg.check_nan && (has_nan_v(hs) || has_nan_v(ls) || has_nan_v(cs) || has_nan_v(vs)) {
        Err(KandError::NaNDetected)
    } else {
        Ok(())
    }
}

/// The validation verdict of the incremental kernel, checks in order:
/// degenerate or inverted periods, undefined samples, then the period
/// domains of the smoothed averages.
pub open spec fn adosc_inc_checks(
    cfg: TAConfig,
    h: int,
    l: int,
    c: int,
    v: int,
    prev_ad: int,
    prev_fast: int,
    prev_slow: int,
    fast: int,
    slow: int,
) -> Result<(), KandError> {
    if cfg.check_structure && (fast == 0 || slow == 0 || fast >= slow) {
        Err(KandError::InvalidParameter)
    } else if cfg.check_nan && (is_nan_v(h) || is_nan_v(l) || is_nan_v(c) || is_nan_v(v)
        || is_nan_v(prev_ad) || is_nan_v(prev_fast) || is_nan_v(prev_slow)) {
        Err(KandError::NaNDetected)
    } else if cfg.check_structure && (fast < 2 || slow < 2) {
        Err(KandError::InvalidParameter)
    } else {
        Ok(())
    }
}

/// The number of samples consumed before the first valid oscillator
/// value: the slow EMA's lookback, `slow period - 1`. Degenerate or
/// inverted periods are outside the parameter domain.
pub fn lookback(param_fast_period: usize, param_slow_period: usize) -> (res: Result<
    usize,
    KandError,
>)
    ensures
        param_fast_period < 2 || param_slow_period < 2 || param_fast_period >= param_slow_period
            ==> res == Err::<usize, KandError>(KandError::InvalidParameter),
        !(param_fast_period < 2 || param_slow_period < 2 || param_fast_period
            >= param_slow_period) ==> res == Ok::<usize, KandError>(
            (param_slow_period - 1) as usize,
        ),
{
    if param_fast_period < 2 || param_slow_period < 2 || param_fast_period >= param_slow_period {
        return Err(KandError::InvalidParameter);
    }
    ema::lookback(param_slow_period)
}

/// The oscillator over whole series, written into `output_adosc` from
/// index `slow period - 1` on, together with the A/D line and both of
/// its smoothed averages. Each output follows the prefix fill policy of
/// the configuration over its own invalid region. On any validation
/// error every output buffer is left untouched.
#[verifier::rlimit(30)]
pub fn adosc(
    cfg: TAConfig,
    input_high: &Vec<TAValue>,
    input_low: &Vec<TAValue>,
    input_close: &Vec<TAValue>,
    input_volume: &Vec<TAValue>,
    param_fast_period: usize,
    param_slow_period: usize,
    output_adosc: &mut Vec<TAValue>,
    output_ad: &mut Vec<TAValue>,
    output_ad_fast_ema: &mut Vec<TAValue>,
    output_ad_slow_ema: &mut Vec<TAValue>,
) -> (res: Result<(), KandError>)
    requires
        all_ok_v(vals(input_high@)),
        all_ok_v(vals(input_low@)),
        all_ok_v(vals(input_close@)),
        all_ok_v(vals(input_volume@)),
        all_ok_v(vals(old(output_adosc)@)),
        all_ok_v(vals(old(output_ad)@)),
        all_ok_v(vals(old(output_ad_fast_ema)@)),
        all_ok_v(vals(old(output_ad_slow_ema)@)),
        !cfg.check_structure ==> 2 <= param_fast_period && param_fast_period < param_slow_period
            && param_slow_period <= input_high@.len() && input_low@.len() == input_high@.len()
            && input_close@.len() == input_high@.len() && input_volume@.len()
            == input_high@.len() && old(output_adosc)@.len() == input_high@.len() && old(
            output_ad,
        )@.len() == input_high@.len() && old(output_ad_fast_ema)@.len() == input_high@.len()
            && old(output_ad_slow_ema)@.len() == input_high@.len(),
    ensures
        res == adosc_checks(
            cfg,
            vals(input_high@),
            vals(input_low@),
            vals(input_close@),
            vals(input_volume@),
            param_fast_period as int,
            param_slow_period as int,
            seq![
                old(output_adosc)@.len() as int,
                old(output_ad)@.len() as int,
                old(output_ad_fast_ema)@.len() as int,
                old(output_ad_slow_ema)@.len() as int,
            ],
        ),
        final(output_adosc)@.len() == old(output_adosc)@.len(),
        final(output_ad)@.len() == old(output_ad)@.len(),
        final(output_ad_fast_ema)@.len() == old(output_ad_fast_ema)@.len(),
        final(output_ad_slow_ema)@.len() == old(output_ad_slow_ema)@.len(),
        all_ok_v(vals(final(output_adosc)@)),
        all_ok_v(vals(final(output_ad)@)),
        all_ok_v(vals(final(output_ad_fast_ema)@)),
        all_ok_v(vals(final(output_ad_slow_ema)@)),
        res is Err ==> final(output_adosc)@ == old(output_adosc)@ && final(output_ad)@ == old(
            output_ad,
        )@ && final(output_ad_fast_ema)@ == old(output_ad_fast_ema)@ && final(output_ad_slow_ema)@
            == old(output_ad_slow_ema)@,
        res is Ok ==> forall|i: int|
            0 <= i < input_high@.len() ==> vals(final(output_ad)@)[i] == ad::ad_at(
                vals(input_high@),
                vals(input_low@),
                vals(input_close@),
                vals(input_volume@),
                i,
            ),
        res is Ok ==> forall|i: int|
            param_fast_period - 1 <= i < input_high@.len() ==> vals(final(output_ad_fast_ema)@)[i]
                == adosc_fast_at(
                vals(input_high@),
                vals(input_low@),
                vals(input_close@),
                vals(input_volume@),
                param_fast_period as int,
                i,
            ),
        res is Ok ==> forall|i: int|
            param_slow_period - 1 <= i < input_high@.len() ==> vals(final(output_ad_slow_ema)@)[i]
                == adosc_slow_at(
                vals(input_high@),
                vals(input_low@),
                vals(input_close@),
                vals(input_volume@),
                param_slow_period as int,
                i,
            ),
        res is Ok ==> forall|i: int|
            param_slow_period - 1 <= i < input_high@.len() ==> vals(final(output_adosc)@)[i]
                == adosc_at(
                vals(input_high@),
                vals(input_low@),
                vals(input_close@),
                vals(input_volume@),
                param_fast_period as int,
                param_slow_period as int,
                i,
            ),
        res is Ok ==> forall|i: int|
            0 <= i < param_slow_period - 1 ==> vals(final(output_adosc)@)[i] == (
            if cfg.fill_invalid_with_nan {
                nan_v()
            } else {
                vals(old(output_adosc)@)[i]
            }),
        res is Ok ==> forall|i: int|
            0 <= i < param_fast_period - 1 ==> vals(final(output_ad_fast_ema)@)[i] == (
            if cfg.fill_invalid_with_nan {
                nan_v()
            } else {
                vals(old(output_ad_fast_ema)@)[i]
            }),
        res is Ok ==> forall|i: int|
            0 <= i < param_slow_period - 1 ==> vals(final(output_ad_slow_ema)@)[i] == (
            if cfg.fill_invalid_with_nan {
                nan_v()
            } else {
                vals(old(output_ad_slow_ema)@)[i]
            }),
{
    let len = input_high.len();
    if cfg.check_structure {
        if param_fast_period < 2 || param_slow_period < 2 || param_fast_period
            >= param_slow_period {
            return Err(KandError::InvalidParameter);
        }
        if len == 0 {
            return Err(KandError::InvalidData);
        }
        if len < param_slow_period {
            return Err(KandError::InsufficientData);
        }
        if input_low.len() != len || input_close.len() != len || input_volume.len() != len
            || output_adosc.len() != len || output_ad.len() != len || output_ad_fast_ema.len()
            != len || output_ad_slow_ema.len() != len {
            return Err(KandError::LengthMismatch);
        }
    }
    if cfg.check_nan {
        if scan_nan(input_high) || scan_nan(input_low) || scan_nan(input_close) || scan_nan(
            input_volume,
        ) {
            return Err(KandError::NaNDetected);
        }
    }
    let ghost hs = vals(input_high@);
    let ghost ls = vals(input_low@);
    let ghost cs = vals(input_close@);
    let ghost vs = vals(input_volume@);
    let sub_cfg = TAConfig {
        check_structure: false,
        check_nan: false,
        fill_invalid_with_nan: cfg.fill_invalid_with_nan,
    };
    let res_ad = ad::ad(sub_cfg, input_high, input_low, input_close, input_volume, output_ad);
    proof {
        assert(res_ad is Ok);
        assert(vals(output_ad@) =~= ad_seq(hs, ls, cs, vs));
    }
    let res_fast = ema::ema(sub_cfg, output_ad, param_fast_period, None, output_ad_fast_ema);
    let res_slow = ema::ema(sub_cfg, output_ad, param_slow_period, None, output_ad_slow_ema);
    proof {
        assert(res_fast is Ok);
        assert(res_slow is Ok);
    }
    let n = param_slow_period;
    let lookback = n - 1;
    if cfg.fill_invalid_with_nan {
        fill_nan_prefix(output_adosc, lookback);
    }
    let ghost base = output_adosc@;
    proof {
        crate::series::lemma_all_ok_elems(old(output_adosc)@);
        assert forall|j: int| 0 <= j < len implies ok_v(#[trigger] base[j]@) by {
            assert(vals(base)[j] == base[j]@);
        }
        assert forall|j: int| 0 <= j < n - 1 implies #[trigger] base[j]@ == (
        if cfg.fill_invalid_with_nan {
            nan_v()
        } else {
            old(output_adosc)@[j]@
        }) by {
            assert(vals(base)[j] == base[j]@);
        }
    }
    let mut i = lookback;
    while i < len
        invariant
            2 <= param_fast_period < n <= len,
            n - 1 <= i <= len,
            len == input_high@.len(),
            output_adosc@.len() == len,
            output_ad_fast_ema@.len() == len,
            output_ad_slow_ema@.len() == len,
            old(output_adosc)@.len() == len,
            base.len() == len,
            hs == vals(input_high@),
            ls == vals(input_low@),
            cs == vals(input_close@),
            vs == vals(input_volume@),
            all_ok_v(vals(output_ad_fast_ema@)),
            all_ok_v(vals(output_ad_slow_ema@)),
            forall|j: int| 0 <= j < len ==> ok_v(#[trigger] base[j]@),
            forall|j: int|
                0 <= j < n - 1 ==> #[trigger] base[j]@ == (if cfg.fill_invalid_with_nan {
                    nan_v()
                } else {
                    old(output_adosc)@[j]@
                }),
            forall|j: int|
                param_fast_period - 1 <= j < len ==> #[trigger] vals(output_ad_fast_ema@)[j]
                    == adosc_fast_at(hs, ls, cs, vs, param_fast_period as int, j),
            forall|j: int|
                n - 1 <= j < len ==> #[trigger] vals(output_ad_slow_ema@)[j] == adosc_slow_at(
                    hs,
                    ls,
                    cs,
                    vs,
                    n as int,
                    j,
                ),
            forall|j: int| 0 <= j < n - 1 ==> #[trigger] output_adosc@[j] == base[j],
            forall|j: int| i <= j < len ==> #[trigger] output_adosc@[j] == base[j],
            forall|j: int|
                n - 1 <= j < i ==> #[trigger] vals(output_adosc@)[j] == adosc_at(
                    hs,
                    ls,
                    cs,
                    vs,
                    param_fast_period as int,
                    n as int,
                    j,
                ),
            all_ok_v(vals(output_adosc@)),
        decreases len - i,
    {
        proof {
            assert(vals(output_ad_fast_ema@)[i as int] == output_ad_fast_ema@[i as int]@);
            assert(vals(output_ad_slow_ema@)[i as int] == output_ad_slow_ema@[i as int]@);
            crate::series::lemma_all_ok_elems(output_ad_fast_ema@);
            crate::series::lemma_all_ok_elems(output_ad_slow_ema@);
        }
        let v = output_ad_fast_ema[i].sub(output_ad_slow_ema[i]);
        let ghost pre = output_adosc@;
        output_adosc.set(i, v);
        proof {
            crate::series::lemma_set_vals(pre, output_adosc@, i as int, v);
            assert forall|j: int| 0 <= j < len implies ok_v(#[trigger] output_adosc@[j]@) by {
                if j != i {
                    assert(output_adosc@[j] == pre[j]);
                    assert(vals(pre)[j] == pre[j]@);
                } else {
                    assert(output_adosc@[j]@ == v@);
                }
            }
            crate::series::lemma_all_ok_intro(output_adosc@);
        }
        i += 1;
    }
    proof {
        assert forall|j: int| 0 <= j < n - 1 implies #[trigger] vals(output_adosc@)[j] == (
        if cfg.fill_invalid_with_nan {
            nan_v()
        } else {
            vals(old(output_adosc)@)[j]
        }) by {
            assert(vals(output_adosc@)[j] == output_adosc@[j]@);
            assert(vals(old(output_adosc)@)[j] == old(output_adosc)@[j]@);
            assert(output_adosc@[j] == base[j]);
        }
    }
    Ok(())
}

/// The latest oscillator value and the updated sub-indicator states —
/// the A/D total and both smoothed averages — from one new sample, in
/// constant time. Returns (oscillator, A/D, fast EMA, slow EMA).
pub fn adosc_inc(
    cfg: TAConfig,
    input_high: TAValue,
    input_low: TAValue,
    input_close: TAValue,
    input_volume: TAValue,
    prev_ad: TAValue,
    prev_ad_fast_ema: TAValue,
    prev_ad_slow_ema: TAValue,
    param_fast_period: usize,
    param_slow_period: usize,
) -> (res: Result<(TAValue, TAValue, TAValue, TAValue), KandError>)
    requires
        ok_v(input_high@),
        ok_v(input_low@),
        ok_v(input_close@),
        ok_v(input_volume@),
        ok_v(prev_ad@),
        ok_v(prev_ad_fast_ema@),
        ok_v(prev_ad_slow_ema@),
        !cfg.check_structure ==> 2 <= param_fast_period && 2 <= param_slow_period
            && param_fast_period < param_slow_period,
    ensures
        match res {
            Ok(v) => adosc_inc_checks(
                cfg,
                input_high@,
                input_low@,
                input_close@,
                input_volume@,
                prev_ad@,
                prev_ad_fast_ema@,
                prev_ad_slow_ema@,
                param_fast_period as int,
                param_slow_period as int,
            ) is Ok && {
                let new_ad = crate::value::add_v(
                    ad::mfv_v(input_high@, input_low@, input_close@, input_volume@),
                    prev_ad@,
                );
                let new_fast = ema::ema_step_v(
                    prev_ad_fast_ema@,
                    new_ad,
                    adosc_k_v(param_fast_period as int),
                );
                let new_slow = ema::ema_step_v(
                    prev_ad_slow_ema@,
                    new_ad,
                    adosc_k_v(param_slow_period as int),
                );
                v.0@ == sub_v(new_fast, new_slow) && v.1@ == new_ad && v.2@ == new_fast && v.3@
                    == new_slow && ok_v(v.0@) && ok_v(v.1@) && ok_v(v.2@) && ok_v(v.3@)
            },
            Err(e) => adosc_inc_checks(
                cfg,
                input_high@,
                input_low@,
                input_close@,
                input_volume@,
                prev_ad@,
                prev_ad_fast_ema@,
                prev_ad_slow_ema@,
                param_fast_period as int,
                param_slow_period as int,
            ) == Err::<(), KandError>(e),
        },
{
    if cfg.check_structure {
        if param_fast_period == 0 || param_slow_period == 0 || param_fast_period
            >= param_slow_period {
            return Err(KandError::InvalidParameter);
        }
    }
    if cfg.check_nan {
        if input_high.is_nan() || input_low.is_nan() || input_close.is_nan()
            || input_volume.is_nan() || prev_ad.is_nan() || prev_ad_fast_ema.is_nan()
            || prev_ad_slow_ema.is_nan() {
            return Err(KandError::NaNDetected);
        }
    }
    if cfg.check_structure {
        if param_fast_period < 2 || param_slow_period < 2 {
            return Err(KandError::InvalidParameter);
        }
    }
    let sub_cfg = TAConfig {
        check_structure: false,
        check_nan: false,
        fill_invalid_with_nan: cfg.fill_invalid_with_nan,
    };
    let output_ad = match ad::ad_inc(
        sub_cfg,
        input_high,
        input_low,
        input_close,
        input_volume,
        prev_ad,
    ) {
        Ok(v) => v,
        Err(e) => {
            return Err(e);
        },
    };
    let output_ad_fast_ema = match ema::ema_inc(
        sub_cfg,
        output_ad,
        prev_ad_fast_ema,
        param_fast_period,
        None,
    ) {
        Ok(v) => v,
        Err(e) => {
            return Err(e);
        },
    };
    let output_ad_slow_ema = match ema::ema_inc(
        sub_cfg,
        output_ad,
        prev_ad_slow_ema,
        param_slow_period,
        None,
    ) {
        Ok(v) => v,
        Err(e) => {
            return Err(e);
        },
    };
    let output_adosc = output_ad_fast_ema.sub(output_ad_slow_ema);
    Ok((output_adosc, output_ad, output_ad_fast_ema, output_ad_slow_ema))
}

/// Batch/incremental agreement for the oscillator: at every index past
/// the first valid one, the batch A/D line and both batch averages are
/// exactly one incremental step from their values at the previous
/// index, and the batch oscillator is their difference.
pub proof fn lemma_adosc_batch_inc_equiv(
    hs: Seq<int>,
    ls: Seq<int>,
    cs: Seq<int>,
    vs: Seq<int>,
    fast: int,
    slow: int,
    i: int,
)
    requires
        2 <= fast < slow,
        slow <= i < hs.len(),
    ensures
        ad_seq(hs, ls, cs, vs)[i] == crate::value::add_v(
            ad::mfv_v(hs[i], ls[i], cs[i], vs[i]),
            ad_seq(hs, ls, cs, vs)[i - 1],
        ),
        adosc_fast_at(hs, ls, cs, vs, fast, i) == ema::ema_step_v(
            adosc_fast_at(hs, ls, cs, vs, fast, i - 1),
            ad_seq(hs, ls, cs, vs)[i],
            adosc_k_v(fast),
        ),
        adosc_slow_at(hs, ls, cs, vs, slow, i) == ema::ema_step_v(
            adosc_slow_at(hs, ls, cs, vs, slow, i - 1),
            ad_seq(hs, ls, cs, vs)[i],
            adosc_k_v(slow),
        ),
        adosc_at(hs, ls, cs, vs, fast, slow, i) == sub_v(
            adosc_fast_at(hs, ls, cs, vs, fast, i),
            adosc_slow_at(hs, ls, cs, vs, slow, i),
        ),
{
    ad::lemma_ad_batch_inc_equiv(hs, ls, cs, vs, i);
    ema::lemma_ema_batch_inc_equiv(ad_seq(hs, ls, cs, vs), fast, adosc_k_v(fast), i);
    ema::lemma_ema_batch_inc_equiv(ad_seq(hs, ls, cs, vs), slow, adosc_k_v(slow), i);
}

} // verus!
