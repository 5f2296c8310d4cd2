//! Accumulation/Distribution line (A/D).
//!
//! Each sample contributes a money flow volume: the money flow
//! multiplier — where the close sits within the high-low range, from -1
//! to +1 — times the volume. The A/D line is the running total of those
//! contributions, starting from zero, so it needs no lookback and every
//! index is valid. A zero high-low range contributes a multiplier of
//! exactly zero rather than an undefined value.

use vstd::prelude::*;

use crate::series::{all_ok_v, has_nan_v, scan_nan, vals};
use crate::value::{add_v, div_v, is_nan_v, mul_v, ok_v, sub_v, finite_v, TAValue};
use crate::{KandError, TAConfig};

verus! {

/// The money flow multiplier: `((close - low) - (high - close)) /
/// (high - low)`, and exactly zero when the range is zero.
pub open spec fn mfm_v(h: int, l: int, c: int) -> int {
    if sub_v(h, l) == 0 {
        0
    } else {
        div_v(sub_v(sub_v(c, l), sub_v(h, c)), sub_v(h, l))
    }
}

/// The money flow volume: the multiplier times the volume.
pub open spec fn mfv_v(h: int, l: int, c: int, v: int) -> int {
    mul_v(mfm_v(h, l, c), v)
}

/// The A/D value at index `i`: the running total of money flow volumes,
/// started from zero.
pub open spec fn ad_at(hs: Seq<int>, ls: Seq<int>, cs: Seq<int>, vs: Seq<int>, i: int) -> int
    decreases i,
{
    if i <= 0 {
        add_v(mfv_v(hs[0], ls[0], cs[0], vs[0]), 0)
    } else {
        add_v(mfv_v(hs[i], ls[i], cs[i], vs[i]), ad_at(hs, ls, cs, vs, i - 1))
    }
}

/// The validation verdict of the batch kernel, checks in order:
/// emptiness, length agreement, then the scan for undefined samples.
pub open spec fn ad_checks(
    cfg: TAConfig,
    hs: Seq<int>,
    ls: Seq<int>,
    cs: Seq<int>,
    vs: Seq<int>,
    out_len: int,
) -> Result<(), KandError> {
    if cfg.check_structure && hs.len() == 0 {
        Err(KandError::InvalidData)
    } else if cfg.check_structure && (ls.len() != hs.len() || cs.len() != hs.len() || vs.len()
        != hs.len() || out_len != hs.len()) {
        Err(KandError::LengthMismatch)
    } else if cfg.check_nan && (has_nan_v(hs) || has_nan_v(ls) || has_nan_v(cs) || has_nan_v(vs)) {
        Err(KandError::NaNDetected)
    } else {
        Ok(())
    }
}

/// The validation verdict of the incremental kernel.
pub open spec fn ad_inc_checks(
    cfg: TAConfig,
    h: int,
    l: int,
    c: int,
    v: int,
    prev: int,
) -> Result<(), KandError> {
    if cfg.check_nan && (is_nan_v(h) || is_nan_v(l) || is_nan_v(c) || is_nan_v(v) || is_nan_v(
        prev,
    )) {
        Err(KandError::NaNDetected)
    } else {
        Ok(())
    }
}

/// The A/D line needs no lookback: it is valid from the first sample.
pub fn lookback() -> (res: Result<usize, KandError>)
    ensures
        res == Ok::<usize, KandError>(0usize),
{
    Ok(0)
}

/// The A/D line over whole series, written into `output_ad` at every
/// index. On any validation error the output buffer is left untouched.
pub fn ad(
    cfg: TAConfig,
    input_high: &Vec<TAValue>,
    input_low: &Vec<TAValue>,
    input_close: &Vec<TAValue>,
    input_volume: &Vec<TAValue>,
    output_ad: &mut Vec<TAValue>,
) -> (res: Result<(), KandError>)
    requires
        all_ok_v(vals(input_high@)),
        all_ok_v(vals(input_low@)),
        all_ok_v(vals(input_close@)),
        all_ok_v(vals(input_volume@)),
        all_ok_v(vals(old(output_ad)@)),
        !cfg.check_structure ==> input_low@.len() == input_high@.len() && input_close@.len()
            == input_high@.len() && input_volume@.len() == input_high@.len() && old(
            output_ad,
        )@.len() == input_high@.len(),
    ensures
        res == ad_checks(
            cfg,
            vals(input_high@),
            vals(input_low@),
            vals(input_close@),
            vals(input_volume@),
            old(output_ad)@.len() as int,
        ),
        final(output_ad)@.len() == old(output_ad)@.len(),
        all_ok_v(vals(final(output_ad)@)),
        res is Err ==> final(output_ad)@ == old(output_ad)@,
        res is Ok ==> forall|i: int|
            0 <= i < input_high@.len() ==> vals(final(output_ad)@)[i] == ad_at(
                vals(input_high@),
                vals(input_low@),
                vals(input_close@),
                vals(input_volume@),
                i,
            ),
{
    let len = input_high.len();
    if cfg.check_structure {
        if len == 0 {
            return Err(KandError::InvalidData);
        }
        if input_low.len() != len || input_close.len() != len || input_volume.len() != len
            || output_ad.len() != len {
            return Err(KandError::LengthMismatch);
        }
    }
    if cfg.check_nan {
        if scan_nan(input_high) || scan_nan(input_low) || scan_nan(input_close) || scan_nan(
            input_volume,
        ) {
            return Err(KandError::NaNDetected);
        }
    }
    let mut ad = TAValue::zero();
    let mut i: usize = 0;
    while i < len
        invariant
            0 <= i <= len,
            len == input_high@.len(),
            input_low@.len() == len,
            input_close@.len() == len,
            input_volume@.len() == len,
            output_ad@.len() == len,
            all_ok_v(vals(input_high@)),
            all_ok_v(vals(input_low@)),
            all_ok_v(vals(input_close@)),
            all_ok_v(vals(input_volume@)),
            ok_v(ad@),
            i == 0 ==> ad@ == 0,
            i > 0 ==> ad@ == ad_at(
                vals(input_high@),
                vals(input_low@),
                vals(input_close@),
                vals(input_volume@),
                i - 1,
            ),
            forall|j: int|
                0 <= j < i ==> vals(output_ad@)[j] == ad_at(
                    vals(input_high@),
                    vals(input_low@),
                    vals(input_close@),
                    vals(input_volume@),
                    j,
                ),
            all_ok_v(vals(output_ad@)),
        decreases len - i,
    {
        let ghost pre = output_ad@;
        proof {
            assert(vals(input_high@)[i as int] == input_high@[i as int]@);
            assert(vals(input_low@)[i as int] == input_low@[i as int]@);
            assert(vals(input_close@)[i as int] == input_close@[i as int]@);
            assert(vals(input_volume@)[i as int] == input_volume@[i as int]@);
        }
        let h = input_high[i];
        let l = input_low[i];
        let c = input_close[i];
        let diff = h.sub(l);
        let mfm = if diff.is_zero() {
            TAValue::zero()
        } else {
            c.sub(l).sub(h.sub(c)).div(diff)
        };
        ad = mfm.mul(input_volume[i]).add(ad);
        output_ad.set(i, ad);
        proof {
            assert(ad@ == ad_at(
                vals(input_high@),
                vals(input_low@),
                vals(input_close@),
                vals(input_volume@),
                i as int,
            ));
            assert forall|j: int| 0 <= j < output_ad@.len() implies ok_v(
                #[trigger] vals(output_ad@)[j],
            ) && (0 <= j < i + 1 ==> vals(output_ad@)[j] == ad_at(
                vals(input_high@),
                vals(input_low@),
                vals(input_close@),
                vals(input_volume@),
                j,
            )) by {
                assert(vals(output_ad@)[j] == output_ad@[j]@);
                assert(vals(pre)[j] == pre[j]@);
                if j != i {
                    assert(output_ad@[j] == pre[j]);
                }
            }
        }
        i += 1;
    }
    Ok(())
}

/// The latest A/D value from one new sample and the previous total, in
/// constant time.
pub fn ad_inc(
    cfg: TAConfig,
    input_high: TAValue,
    input_low: TAValue,
    input_close: TAValue,
    input_volume: TAValue,
    prev_ad: TAValue,
) -> (res: Result<TAValue, KandError>)
    requires
        ok_v(input_high@),
        ok_v(input_low@),
        ok_v(input_close@),
        ok_v(input_volume@),
        ok_v(prev_ad@),
    ensures
        match res {
            Ok(v) => ad_inc_checks(
                cfg,
                input_high@,
                input_low@,
                input_close@,
                input_volume@,
                prev_ad@,
            ) is Ok && v@ == add_v(
                mfv_v(input_high@, input_low@, input_close@, input_volume@),
                prev_ad@,
            ) && ok_v(v@),
            Err(e) => ad_inc_checks(
                cfg,
                input_high@,
                input_low@,
                input_close@,
                input_volume@,
                prev_ad@,
            ) == Err::<(), KandError>(e),
        },
{
    if cfg.check_nan {
        if input_high.is_nan() || input_low.is_nan() || input_close.is_nan()
            || input_volume.is_nan() || prev_ad.is_nan() {
            return Err(KandError::NaNDetected);
        }
    }
    let diff = input_high.sub(input_low);
    let mfm = if diff.is_zero() {
        TAValue::zero()
    } else {
        input_close.sub(input_low).sub(input_high.sub(input_close)).div(diff)
    };
    Ok(mfm.mul(input_volume).add(prev_ad))
}

/// Batch/incremental agreement for the A/D line: at every index past
/// the first, the batch value is exactly one incremental step from the
/// batch value at the previous index.
pub proof fn lemma_ad_batch_inc_equiv(
    hs: Seq<int>,
    ls: Seq<int>,
    cs: Seq<int>,
    vs: Seq<int>,
    i: int,
)
    requires
        1 <= i,
    ensures
        ad_at(hs, ls, cs, vs, i) == add_v(
            mfv_v(hs[i], ls[i], cs[i], vs[i]),
            ad_at(hs, ls, cs, vs, i - 1),
        ),
{
}

/// A degenerate high-low range is harmless: the multiplier is exactly
/// zero — not an undefined value — so the sample contributes nothing
/// and the A/D total passes through unchanged.
pub proof fn lemma_ad_zero_range(h: int, l: int, c: int, v: int, prev: int)
    requires
        h == l,
        finite_v(h),
        finite_v(v),
        finite_v(prev),
    ensures
        mfm_v(h, l, c) == 0,
        add_v(mfv_v(h, l, c, v), prev) == prev,
{
    assert(sub_v(h, l) == 0);
    assert(crate::value::round_div(0, crate::value::sc()) == 0) by {
        vstd::arithmetic::div_mod::lemma_basic_div(
            crate::value::sc(),
            2 * crate::value::sc(),
        );
    }
    assert(mfv_v(h, l, c, v) == 0);
}

} // verus!
