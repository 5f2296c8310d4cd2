//! Rate of Change Percentage (ROCP).
//!
//! The ROCP at index `i` is the relative change between the sample at
//! `i` and the sample `period` indices earlier:
//! `(price[i] - price[i - period]) / price[i - period]`. It carries no
//! state at all, so the batch and incremental kernels evaluate the very
//! same expression.

use vstd::prelude::*;

use crate::series::{all_ok_v, fill_nan_prefix, has_nan_v, scan_nan, vals};
use crate::value::{div_v, is_nan_v, nan_v, ok_v, sub_v, TAValue};
use crate::{KandError, TAConfig};

verus! {

/// The ROCP value at index `i` (valid from `period` on).
pub open spec fn rocp_at(xs: Seq<int>, n: int, i: int) -> int {
    div_v(sub_v(xs[i], xs[i - n]), xs[i - n])
}

/// The validation verdict of the batch kernel, checks in order:
/// parameter domain, emptiness, sufficiency, length agreement, then the
/// scan for undefined samples.
pub open spec fn rocp_checks(cfg: TAConfig, xs: Seq<int>, n: int, out_len: int) -> Result<
    (),
    KandError,
> {
    if cfg.check_structure && n < 1 {
        Err(KandError::InvalidParameter)
    } else if cfg.check_structure && xs.len() == 0 {
        Err(KandError::InvalidData)
    } else if cfg.check_structure && xs.len() <= n {
        Err(KandError::InsufficientData)
    } else if cfg.check_structure && out_len != xs.len() {
        Err(KandError::LengthMismatch)
    } else if cfg.check_nan && has_nan_v(xs) {
        Err(KandError::NaNDetected)
    } else {
        Ok(())
    }
}

/// The validation verdict of the incremental kernel.
pub open spec fn rocp_inc_checks(cfg: TAConfig, input: int, prev: int) -> Result<(), KandError> {
    if cfg.check_nan && (is_nan_v(input) || is_nan_v(prev)) {
        Err(KandError::NaNDetected)
    } else {
        Ok(())
    }
}

/// The number of samples consumed before the first valid ROCP value:
/// the period itself. A period below 1 is outside the parameter domain.
pub fn lookback(opt_period: usize) -> (res: Result<usize, KandError>)
    ensures
        opt_period < 1 ==> res == Err::<usize, KandError>(KandError::InvalidParameter),
        opt_period >= 1 ==> res == Ok::<usize, KandError>(opt_period),
{
    if opt_period < 1 {
        return Err(KandError::InvalidParameter);
    }
    Ok(opt_period)
}

/// The ROCP over a whole series, written into `output_rocp` from index
/// `period` on. Entries before that index follow the prefix fill policy
/// of the configuration. On any validation error the output buffer is
/// left untouched.
pub fn rocp(
    cfg: TAConfig,
    input_price: &Vec<TAValue>,
    opt_period: usize,
    output_rocp: &mut Vec<TAValue>,
) -> (res: Result<(), KandError>)
    requires
        all_ok_v(vals(input_price@)),
        all_ok_v(vals(old(output_rocp)@)),
        !cfg.check_structure ==> 1 <= opt_period < input_price@.len() && old(output_rocp)@.len()
            == input_price@.len(),
    ensures
        res == rocp_checks(
            cfg,
            vals(input_price@),
            opt_period as int,
            old(output_rocp)@.len() as int,
        ),
        final(output_rocp)@.len() == old(output_rocp)@.len(),
        all_ok_v(vals(final(output_rocp)@)),
        res is Err ==> final(output_rocp)@ == old(output_rocp)@,
        res is Ok ==> forall|i: int|
            opt_period <= i < input_price@.len() ==> vals(final(output_rocp)@)[i] == rocp_at(
                vals(input_price@),
                opt_period as int,
                i,
            ),
        res is Ok ==> forall|i: int|
            0 <= i < opt_period ==> vals(final(output_rocp)@)[i] == (if cfg.fill_invalid_with_nan {
                nan_v()
            } else {
                vals(old(output_rocp)@)[i]
            }),
{
    let len = input_price.len();
    if cfg.check_structure {
        if opt_period < 1 {
            return Err(KandError::InvalidParameter);
        }
        if len == 0 {
            return Err(KandError::InvalidData);
        }
        if len <= opt_period {
            return Err(KandError::InsufficientData);
        }
        if output_rocp.len() != len {
            return Err(KandError::LengthMismatch);
        }
    }
    if cfg.check_nan {
        if scan_nan(input_price) {
            return Err(KandError::NaNDetected);
        }
    }
    let n = opt_period;
    if cfg.fill_invalid_with_nan {
        fill_nan_prefix(output_rocp, n);
    }
    let ghost base = output_rocp@;
    proof {
        assert forall|j: int| 0 <= j < base.len() implies ok_v(#[trigger] base[j]@) && (0 <= j < n
            ==> base[j]@ == (if cfg.fill_invalid_with_nan {
            nan_v()
        } else {
            old(output_rocp)@[j]@
        })) by {
            assert(vals(base)[j] == base[j]@);
            assert(vals(old(output_rocp)@)[j] == old(output_rocp)@[j]@);
        }
    }
    let mut i = n;
    while i < len
        invariant
            1 <= n <= i <= len,
            len == input_price@.len(),
            output_rocp@.len() == len,
            old(output_rocp)@.len() == len,
            base.len() == len,
            all_ok_v(vals(input_price@)),
            all_ok_v(vals(old(output_rocp)@)),
            forall|j: int| 0 <= j < base.len() ==> ok_v(#[trigger] base[j]@),
            forall|j: int|
                0 <= j < n ==> base[j]@ == (if cfg.fill_invalid_with_nan {
                    nan_v()
                } else {
                    old(output_rocp)@[j]@
                }),
            forall|j: int| 0 <= j < i && !(n <= j) ==> output_rocp@[j] == base[j],
            forall|j: int| i <= j < len ==> output_rocp@[j] == base[j],
            forall|j: int|
                n <= j < i ==> vals(output_rocp@)[j] == rocp_at(
                    vals(input_price@),
                    n as int,
                    j,
                ),
            all_ok_v(vals(output_rocp@)),
        decreases len - i,
    {
        let ghost pre = output_rocp@;
        proof {
            assert(vals(input_price@)[i as int] == input_price@[i as int]@);
            assert(vals(input_price@)[i - n] == input_price@[i - n]@);
        }
        let prev = input_price[i - n];
        let v = input_price[i].sub(prev).div(prev);
        output_rocp.set(i, v);
        proof {
            assert forall|j: int| 0 <= j < output_rocp@.len() implies ok_v(
                #[trigger] vals(output_rocp@)[j],
            ) && (j != i ==> output_rocp@[j] == pre[j]) && (n <= j < i + 1 ==> vals(
                output_rocp@,
            )[j] == rocp_at(vals(input_price@), n as int, j)) by {
                assert(vals(output_rocp@)[j] == output_rocp@[j]@);
                assert(vals(pre)[j] == pre[j]@);
                if j != i {
                    assert(output_rocp@[j] == pre[j]);
                }
            }
        }
        i += 1;
    }
    proof {
        assert forall|j: int| 0 <= j < n implies vals(output_rocp@)[j] == (
        if cfg.fill_invalid_with_nan {
            nan_v()
        } else {
            vals(old(output_rocp)@)[j]
        }) by {
            assert(vals(output_rocp@)[j] == output_rocp@[j]@);
            assert(vals(old(output_rocp)@)[j] == old(output_rocp)@[j]@);
            assert(output_rocp@[j] == base[j]);
        }
    }
    Ok(())
}

/// The latest ROCP value from the newest sample and the sample one
/// period earlier, in constant time.
pub fn rocp_inc(cfg: TAConfig, input: TAValue, prev: TAValue) -> (res: Result<TAValue, KandError>)
    requires
        ok_v(input@),
        ok_v(prev@),
    ensures
        match res {
            Ok(v) => rocp_inc_checks(cfg, input@, prev@) is Ok && v@ == div_v(
                sub_v(input@, prev@),
                prev@,
            ) && ok_v(v@),
            Err(e) => rocp_inc_checks(cfg, input@, prev@) == Err::<(), KandError>(e),
        },
{
    if cfg.check_nan {
        if input.is_nan() || prev.is_nan() {
            return Err(KandError::NaNDetected);
        }
    }
    Ok(input.sub(prev).div(prev))
}

/// Batch/incremental agreement for the ROCP: the indicator carries no
/// state, so the batch value at any valid index is the incremental
/// formula applied to the same two samples.
pub proof fn lemma_rocp_batch_inc_equiv(xs: Seq<int>, n: int, i: int)
    requires
        1 <= n <= i < xs.len(),
    ensures
        rocp_at(xs, n, i) == div_v(sub_v(xs[i], xs[i - n]), xs[i - n]),
{
}

} // verus!
