//! Heikin-Ashi candles (HA).
//!
//! Heikin-Ashi recomputes each candle from the raw one and the previous
//! Heikin-Ashi candle: the close is the mean of the raw candle's four
//! prices, the open is the midpoint of the previous Heikin-Ashi open
//! and close, and the high and low take the raw extreme or the new open
//! or close, whichever is more extreme. The first candle is seeded from
//! the raw candle alone: its high and low pass through, its open is the
//! raw open/close midpoint. The batch kernel applies exactly the step
//! the incremental kernel applies.

use vstd::prelude::*;

use crate::series::{all_ok_v, has_nan_v, scan_nan, vals};
use crate::value::{add_v, div_v, from_n_v, is_nan_v, max_v, min_v, ok_v, TAValue};
use crate::{KandError, TAConfig};

verus! {

/// The Heikin-Ashi close: the mean of the four raw prices.
pub open spec fn ha_close_v(o: int, h: int, l: int, c: int) -> int {
    div_v(add_v(add_v(add_v(o, h), l), c), from_n_v(4))
}

/// The midpoint of two samples.
pub open spec fn ha_mid_v(a: int, b: int) -> int {
    div_v(add_v(a, b), from_n_v(2))
}

/// The Heikin-Ashi (open, close) pair at index `i`.
pub open spec fn ha_oc_at(os: Seq<int>, hs: Seq<int>, ls: Seq<int>, cs: Seq<int>, i: int) -> (
    int,
    int,
)
    decreases i,
{
    if i <= 0 {
        (ha_mid_v(os[0], cs[0]), ha_close_v(os[0], hs[0], ls[0], cs[0]))
    } else {
        let prev = ha_oc_at(os, hs, ls, cs, i - 1);
        (ha_mid_v(prev.0, prev.1), ha_close_v(os[i], hs[i], ls[i], cs[i]))
    }
}

/// The Heikin-Ashi open at index `i`.
pub open spec fn ha_open_at(os: Seq<int>, hs: Seq<int>, ls: Seq<int>, cs: Seq<int>, i: int) -> int {
    ha_oc_at(os, hs, ls, cs, i).0
}

/// The Heikin-Ashi close at index `i`.
pub open spec fn ha_close_at(os: Seq<int>, hs: Seq<int>, ls: Seq<int>, cs: Seq<int>, i: int) -> int {
    ha_oc_at(os, hs, ls, cs, i).1
}

/// The Heikin-Ashi high at index `i`: the raw high at the seed, and
/// from then on the largest of the raw high and the candle's own open
/// and close.
pub open spec fn ha_high_at(os: Seq<int>, hs: Seq<int>, ls: Seq<int>, cs: Seq<int>, i: int) -> int {
    if i <= 0 {
        hs[0]
    } else {
        max_v(max_v(hs[i], ha_open_at(os, hs, ls, cs, i)), ha_close_at(os, hs, ls, cs, i))
    }
}

/// The Heikin-Ashi low at index `i`, dually.
pub open spec fn ha_low_at(os: Seq<int>, hs: Seq<int>, ls: Seq<int>, cs: Seq<int>, i: int) -> int {
    if i <= 0 {
        ls[0]
    } else {
        min_v(min_v(ls[i], ha_open_at(os, hs, ls, cs, i)), ha_close_at(os, hs, ls, cs, i))
    }
}

/// The validation verdict of the batch kernel, checks in order:
/// emptiness, length agreement, then the scan for undefined samples.
pub open spec fn ha_checks(
    cfg: TAConfig,
    os: Seq<int>,
    hs: Seq<int>,
    ls: Seq<int>,
    cs: Seq<int>,
    out_lens: Seq<int>,
) -> Result<(), KandError> {
    if cfg.check_structure && os.len() == 0 {
        Err(KandError::InvalidData)
    } else if cfg.check_structure && !(hs.len() == os.len() && ls.len() == os.len() && cs.len()
        == os.len() && out_lens == seq![os.len() as int, os.len() as int, os.len() as int, os.len() as int]) {
        Err(KandError::LengthMismatch)
    } else if cfg.check_nan && (has_nan_v(os) || has_nan_v(hs) || has_nan_v(ls) || has_nan_v(cs)) {
        Err(KandError::NaNDetected)
    } else {
        Ok(())
    }
}

/// The validation verdict of the incremental kernel.
pub open spec fn ha_inc_checks(
    cfg: TAConfig,
    o: int,
    h: int,
    l: int,
    c: int,
    po: int,
    pc: int,
) -> Result<(), KandError> {
    if cfg.check_nan && (is_nan_v(o) || is_nan_v(h) || is_nan_v(l) || is_nan_v(c) || is_nan_v(po)
        || is_nan_v(pc)) {
        Err(KandError::NaNDetected)
    } else {
        Ok(())
    }
}

/// One raw candle before the first valid Heikin-Ashi step: the seed
/// candle at index 0 is derived, every later candle uses the previous
/// one.
pub fn lookback() -> (res: Result<usize, KandError>)
    ensures
        res == Ok::<usize, KandError>(1usize),
{
    Ok(1)
}

/// Heikin-Ashi candles over whole series, written into the four output
/// buffers at every index. On any validation error the output buffers
/// are left untouched.
#[verifier::rlimit(30)]
pub fn ha(
    cfg: TAConfig,
    input_open: &Vec<TAValue>,
    input_high: &Vec<TAValue>,
    input_low: &Vec<TAValue>,
    input_close: &Vec<TAValue>,
    output_open: &mut Vec<TAValue>,
    output_high: &mut Vec<TAValue>,
    output_low: &mut Vec<TAValue>,
    output_close: &mut Vec<TAValue>,
) -> (res: Result<(), KandError>)
    requires
        all_ok_v(vals(input_open@)),
        all_ok_v(vals(input_high@)),
        all_ok_v(vals(input_low@)),
        all_ok_v(vals(input_close@)),
        all_ok_v(vals(old(output_open)@)),
        all_ok_v(vals(old(output_high)@)),
        all_ok_v(vals(old(output_low)@)),
        all_ok_v(vals(old(output_close)@)),
        !cfg.check_structure ==> input_open@.len() > 0 && input_high@.len() == input_open@.len()
            && input_low@.len() == input_open@.len() && input_close@.len() == input_open@.len()
            && old(output_open)@.len() == input_open@.len() && old(output_high)@.len()
            == input_open@.len() && old(output_low)@.len() == input_open@.len() && old(
            output_close,
        )@.len() == input_open@.len(),
    ensures
        res == ha_checks(
            cfg,
            vals(input_open@),
            vals(input_high@),
            vals(input_low@),
            vals(input_close@),
            seq![
                old(output_open)@.len() as int,
                old(output_high)@.len() as int,
                old(output_low)@.len() as int,
                old(output_close)@.len() as int,
            ],
        ),
        final(output_open)@.len() == old(output_open)@.len(),
        final(output_high)@.len() == old(output_high)@.len(),
        final(output_low)@.len() == old(output_low)@.len(),
        final(output_close)@.len() == old(output_close)@.len(),
        all_ok_v(vals(final(output_open)@)),
        all_ok_v(vals(final(output_high)@)),
        all_ok_v(vals(final(output_low)@)),
        all_ok_v(vals(final(output_close)@)),
        res is Err ==> final(output_open)@ == old(output_open)@ && final(output_high)@ == old(
            output_high,
        )@ && final(output_low)@ == old(output_low)@ && final(output_close)@ == old(
            output_close,
        )@,
        res is Ok ==> forall|i: int|
            0 <= i < input_open@.len() ==> vals(final(output_open)@)[i] == ha_open_at(
                vals(input_open@),
                vals(input_high@),
                vals(input_low@),
                vals(input_close@),
                i,
            ) && vals(final(output_high)@)[i] == ha_high_at(
                vals(input_open@),
                vals(input_high@),
                vals(input_low@),
                vals(input_close@),
                i,
            ) && vals(final(output_low)@)[i] == ha_low_at(
                vals(input_open@),
                vals(input_high@),
                vals(input_low@),
                vals(input_close@),
                i,
            ) && vals(final(output_close)@)[i] == ha_close_at(
                vals(input_open@),
                vals(input_high@),
                vals(input_low@),
                vals(input_close@),
                i,
            ),
{
    let len = input_open.len();
    if cfg.check_structure {
        if len == 0 {
            return Err(KandError::InvalidData);
        }
        if input_high.len() != len || input_low.len() != len || input_close.len() != len
            || output_open.len() != len || output_high.len() != len || output_low.len() != len
            || output_close.len() != len {
            return Err(KandError::LengthMismatch);
        }
    }
    if cfg.check_nan {
        if scan_nan(input_open) || scan_nan(input_high) || scan_nan(input_low) || scan_nan(
            input_close,
        ) {
            return Err(KandError::NaNDetected);
        }
    }
    let ghost os = vals(input_open@);
    let ghost hs = vals(input_high@);
    let ghost ls = vals(input_low@);
    let ghost cs = vals(input_close@);
    proof {
        assert(vals(input_open@)[0] == input_open@[0]@);
        assert(vals(input_high@)[0] == input_high@[0]@);
        assert(vals(input_low@)[0] == input_low@[0]@);
        assert(vals(input_close@)[0] == input_close@[0]@);
    }
    let four = TAValue::from_period(4);
    let two = TAValue::from_period(2);
    let mut prev_open = input_open[0].add(input_close[0]).div(two);
    let mut prev_close = input_open[0].add(input_high[0]).add(input_low[0]).add(
        input_close[0],
    ).div(four);
    let ghost pre_o = output_open@;
    let ghost pre_h = output_high@;
    let ghost pre_l = output_low@;
    let ghost pre_c = output_close@;
    output_open.set(0, prev_open);
    output_high.set(0, input_high[0]);
    output_low.set(0, input_low[0]);
    output_close.set(0, prev_close);
    proof {
        crate::series::lemma_set_vals(pre_o, output_open@, 0, prev_open);
        crate::series::lemma_set_vals(pre_h, output_high@, 0, input_high@[0]);
        crate::series::lemma_set_vals(pre_l, output_low@, 0, input_low@[0]);
        crate::series::lemma_set_vals(pre_c, output_close@, 0, prev_close);
        assert forall|j: int| 0 <= j < len implies ok_v(#[trigger] vals(output_open@)[j]) && ok_v(
            #[trigger] vals(output_high@)[j],
        ) && ok_v(#[trigger] vals(output_low@)[j]) && ok_v(#[trigger] vals(output_close@)[j]) by {
            assert(vals(output_open@)[j] == output_open@[j]@);
            assert(vals(output_high@)[j] == output_high@[j]@);
            assert(vals(output_low@)[j] == output_low@[j]@);
            assert(vals(output_close@)[j] == output_close@[j]@);
            assert(vals(pre_o)[j] == pre_o[j]@);
            assert(vals(pre_h)[j] == pre_h[j]@);
            assert(vals(pre_l)[j] == pre_l[j]@);
            assert(vals(pre_c)[j] == pre_c[j]@);
        }
    }
    let mut i: usize = 1;
    while i < len
        invariant
            1 <= i <= len,
            len == input_open@.len(),
            input_high@.len() == len,
            input_low@.len() == len,
            input_close@.len() == len,
            output_open@.len() == len,
            output_high@.len() == len,
            output_low@.len() == len,
            output_close@.len() == len,
            os == vals(input_open@),
            hs == vals(input_high@),
            ls == vals(input_low@),
            cs == vals(input_close@),
            all_ok_v(os),
            all_ok_v(hs),
            all_ok_v(ls),
            all_ok_v(cs),
            ok_v(prev_open@),
            ok_v(prev_close@),
            two@ == from_n_v(2),
            four@ == from_n_v(4),
            prev_open@ == ha_open_at(os, hs, ls, cs, i - 1),
            prev_close@ == ha_close_at(os, hs, ls, cs, i - 1),
            forall|j: int| 0 <= j < i ==> vals(output_open@)[j] == ha_open_at(os, hs, ls, cs, j),
            forall|j: int| 0 <= j < i ==> vals(output_high@)[j] == ha_high_at(os, hs, ls, cs, j),
            forall|j: int| 0 <= j < i ==> vals(output_low@)[j] == ha_low_at(os, hs, ls, cs, j),
            forall|j: int| 0 <= j < i ==> vals(output_close@)[j] == ha_close_at(os, hs, ls, cs, j),
            all_ok_v(vals(output_open@)),
            all_ok_v(vals(output_high@)),
            all_ok_v(vals(output_low@)),
            all_ok_v(vals(output_close@)),
        decreases len - i,
    {
        proof {
            assert(vals(input_open@)[i as int] == input_open@[i as int]@);
            assert(vals(input_high@)[i as int] == input_high@[i as int]@);
            assert(vals(input_low@)[i as int] == input_low@[i as int]@);
            assert(vals(input_close@)[i as int] == input_close@[i as int]@);
        }
        let ha_open = prev_open.add(prev_close).div(two);
        let ha_close = input_open[i].add(input_high[i]).add(input_low[i]).add(
            input_close[i],
        ).div(four);
        let ha_high = input_high[i].max_of(ha_open).max_of(ha_close);
        let ha_low = input_low[i].min_of(ha_open).min_of(ha_close);
        let ghost po = output_open@;
        let ghost ph = output_high@;
        let ghost pl = output_low@;
        let ghost pc = output_close@;
        output_open.set(i, ha_open);
        output_high.set(i, ha_high);
        output_low.set(i, ha_low);
        output_close.set(i, ha_close);
        proof {
            crate::series::lemma_set_vals(po, output_open@, i as int, ha_open);
            crate::series::lemma_set_vals(ph, output_high@, i as int, ha_high);
            crate::series::lemma_set_vals(pl, output_low@, i as int, ha_low);
            crate::series::lemma_set_vals(pc, output_close@, i as int, ha_close);
            assert(ha_open@ == ha_open_at(os, hs, ls, cs, i as int));
            assert(ha_close@ == ha_close_at(os, hs, ls, cs, i as int));
            assert(ha_high@ == ha_high_at(os, hs, ls, cs, i as int));
            assert(ha_low@ == ha_low_at(os, hs, ls, cs, i as int));
            assert forall|j: int| 0 <= j < len implies ok_v(#[trigger] vals(output_open@)[j])
                && ok_v(#[trigger] vals(output_high@)[j]) && ok_v(
                #[trigger] vals(output_low@)[j],
            ) && ok_v(#[trigger] vals(output_close@)[j]) by {
                assert(vals(output_open@)[j] == output_open@[j]@);
                assert(vals(output_high@)[j] == output_high@[j]@);
                assert(vals(output_low@)[j] == output_low@[j]@);
                assert(vals(output_close@)[j] == output_close@[j]@);
                assert(vals(po)[j] == po[j]@);
                assert(vals(ph)[j] == ph[j]@);
                assert(vals(pl)[j] == pl[j]@);
                assert(vals(pc)[j] == pc[j]@);
            }
        }
        prev_open = ha_open;
        prev_close = ha_close;
        i += 1;
    }
    Ok(())
}

/// One Heikin-Ashi candle from the raw candle and the previous derived
/// open and close, in constant time. Returns the derived
/// (open, high, low, close).
pub fn ha_inc(
    cfg: TAConfig,
    curr_open: TAValue,
    curr_high: TAValue,
    curr_low: TAValue,
    curr_close: TAValue,
    prev_ha_open: TAValue,
    prev_ha_close: TAValue,
) -> (res: Result<(TAValue, TAValue, TAValue, TAValue), KandError>)
    requires
        ok_v(curr_open@),
        ok_v(curr_high@),
        ok_v(curr_low@),
        ok_v(curr_close@),
        ok_v(prev_ha_open@),
        ok_v(prev_ha_close@),
    ensures
        match res {
            Ok(v) => ha_inc_checks(
                cfg,
                curr_open@,
                curr_high@,
                curr_low@,
                curr_close@,
                prev_ha_open@,
                prev_ha_close@,
            ) is Ok && {
                let o = ha_mid_v(prev_ha_open@, prev_ha_close@);
                let c = ha_close_v(curr_open@, curr_high@, curr_low@, curr_close@);
                v.0@ == o && v.1@ == max_v(max_v(curr_high@, o), c) && v.2@ == min_v(
                    min_v(curr_low@, o),
                    c,
                ) && v.3@ == c && ok_v(v.0@) && ok_v(v.1@) && ok_v(v.2@) && ok_v(v.3@)
            },
            Err(e) => ha_inc_checks(
                cfg,
                curr_open@,
                curr_high@,
                curr_low@,
                curr_close@,
                prev_ha_open@,
                prev_ha_close@,
            ) == Err::<(), KandError>(e),
        },
{
    if cfg.check_nan {
        if curr_open.is_nan() || curr_high.is_nan() || curr_low.is_nan() || curr_close.is_nan()
            || prev_ha_open.is_nan() || prev_ha_close.is_nan() {
            return Err(KandError::NaNDetected);
        }
    }
    let ha_close = curr_open.add(curr_high).add(curr_low).add(curr_close).div(
        TAValue::from_period(4),
    );
    let ha_open = prev_ha_open.add(prev_ha_close).div(TAValue::from_period(2));
    let ha_high = curr_high.max_of(ha_open).max_of(ha_close);
    let ha_low = curr_low.min_of(ha_open).min_of(ha_close);
    Ok((ha_open, ha_high, ha_low, ha_close))
}

/// Batch/incremental agreement for Heikin-Ashi: at every index past the
/// seed, the batch candle is exactly the incremental step applied to
/// the batch open and close at the previous index.
pub proof fn lemma_ha_batch_inc_equiv(os: Seq<int>, hs: Seq<int>, ls: Seq<int>, cs: Seq<int>, i: int)
    requires
        1 <= i,
    ensures
        ha_open_at(os, hs, ls, cs, i) == ha_mid_v(
            ha_open_at(os, hs, ls, cs, i - 1),
            ha_close_at(os, hs, ls, cs, i - 1),
        ),
        ha_close_at(os, hs, ls, cs, i) == ha_close_v(os[i], hs[i], ls[i], cs[i]),
        ha_high_at(os, hs, ls, cs, i) == max_v(
            max_v(hs[i], ha_open_at(os, hs, ls, cs, i)),
            ha_close_at(os, hs, ls, cs, i),
        ),
        ha_low_at(os, hs, ls, cs, i) == min_v(
            min_v(ls[i], ha_open_at(os, hs, ls, cs, i)),
            ha_close_at(os, hs, ls, cs, i),
        ),
{
}

} // verus!
