//! Scenario and edge-case tests: validation ordering, degenerate
//! inputs, the boundary accumulation scenario, the moving-average
//! window scenario, the smoothed average, and the sample arithmetic
//! itself.

use kand::ohlcv::{ad, adosc, ema, sma};
use kand::{KandError, TAConfig, TAValue};

/// One sample unit per `1e-12`: build a sample from a decimal literal.
fn fx(x: f64) -> TAValue {
    TAValue::from_raw(((x * 1e6).round() as i128) * 1_000_000)
}

fn fxv(xs: &[f64]) -> Vec<TAValue> {
    xs.iter().map(|&x| fx(x)).collect()
}

fn approx(v: TAValue) -> f64 {
    v.raw() as f64 / 1e12
}

fn assert_close(v: TAValue, expected: f64, eps: f64) {
    assert!(!v.is_nan(), "expected {expected}, got an undefined value");
    let got = approx(v);
    assert!(
        (got - expected).abs() <= eps,
        "expected {expected}, got {got}"
    );
}

fn cfg(fill: bool) -> TAConfig {
    TAConfig {
        check_structure: true,
        check_nan: true,
        fill_invalid_with_nan: fill,
    }
}

#[test]
fn test_boundary_accumulation_scenario() {
    // The published multiplier formula applied by hand:
    //   index 0: ((9-8) - (10-9)) / (10-8) = 0,        A/D = 0
    //   index 1: ((11-9) - (12-11)) / (12-9) = 1/3,    A/D = 0 + 50 = 50
    //   index 2: ((13-11) - (15-13)) / (15-11) = 0,    A/D = 50
    let high = fxv(&[10.0, 12.0, 15.0]);
    let low = fxv(&[8.0, 9.0, 11.0]);
    let close = fxv(&[9.0, 11.0, 13.0]);
    let volume = fxv(&[100.0, 150.0, 200.0]);
    let mut output_ad = vec![fx(0.0); 3];

    ad::ad(cfg(false), &high, &low, &close, &volume, &mut output_ad).unwrap();

    assert_close(output_ad[0], 0.0, 1e-9);
    assert_close(output_ad[1], 50.0, 1e-9);
    assert_close(output_ad[2], 50.0, 1e-9);

    // The incremental kernel seeded with the first output reproduces
    // outputs two and three.
    let second = ad::ad_inc(cfg(false), high[1], low[1], close[1], volume[1], output_ad[0])
        .unwrap();
    assert_eq!(second.raw(), output_ad[1].raw());
    let third =
        ad::ad_inc(cfg(false), high[2], low[2], close[2], volume[2], second).unwrap();
    assert_eq!(third.raw(), output_ad[2].raw());
}

#[test]
fn test_zero_range_contributes_nothing() {
    // A zero high-low range yields a multiplier of exactly zero, so the
    // accumulation passes through unchanged — no undefined value.
    let prev = fx(123.456);
    let out = ad::ad_inc(cfg(false), fx(7.0), fx(7.0), fx(7.0), fx(555.5), prev).unwrap();
    assert_eq!(out.raw(), prev.raw());
}

#[test]
fn test_sma_window_means_scenario() {
    // A 5-sample series with period 3 produces exactly 3 valid outputs,
    // the arithmetic means of the 3-sample windows; the first 2 outputs
    // are marked invalid.
    let input = fxv(&[2.0, 4.0, 6.0, 8.0, 10.0]);
    let mut output = vec![fx(0.0); 5];
    sma::sma(cfg(true), &input, 3, &mut output).unwrap();

    assert!(output[0].is_nan());
    assert!(output[1].is_nan());
    assert_close(output[2], 4.0, 1e-12);
    assert_close(output[3], 6.0, 1e-12);
    assert_close(output[4], 8.0, 1e-12);
}

#[test]
fn test_sma_lookback() {
    assert_eq!(sma::lookback(14).unwrap(), 13);
    assert_eq!(sma::lookback(2).unwrap(), 1);
    assert!(sma::lookback(1).is_err());
    assert!(sma::lookback(0).is_err());
}

#[test]
fn test_adosc_lookback_is_slow_ema_lookback() {
    // The composite's lookback equals its slow sub-average's lookback.
    assert_eq!(adosc::lookback(3, 10).unwrap(), 9);
    assert_eq!(adosc::lookback(3, 10).unwrap(), ema::lookback(10).unwrap());
    assert_eq!(adosc::lookback(2, 30).unwrap(), ema::lookback(30).unwrap());
    // Degenerate and inverted periods are rejected.
    assert_eq!(adosc::lookback(10, 3), Err(KandError::InvalidParameter));
    assert_eq!(adosc::lookback(1, 10), Err(KandError::InvalidParameter));
    assert_eq!(adosc::lookback(3, 3), Err(KandError::InvalidParameter));
}

#[test]
fn test_ema_known_values() {
    // Seed = mean of the first window; then each value moves halfway
    // toward the newest sample (period 3 gives a factor of 1/2).
    let input = fxv(&[2.0, 4.0, 6.0, 8.0, 10.0]);
    let mut output = vec![fx(0.0); 5];
    ema::ema(cfg(true), &input, 3, None, &mut output).unwrap();

    assert!(output[0].is_nan());
    assert!(output[1].is_nan());
    assert_close(output[2], 4.0, 1e-9);
    assert_close(output[3], 6.0, 1e-9);
    assert_close(output[4], 8.0, 1e-9);

    // Incremental calculation must match the full series.
    let mut prev = output[2];
    for i in 3..5 {
        let next = ema::ema_inc(cfg(true), input[i], prev, 3, None).unwrap();
        assert_eq!(next.raw(), output[i].raw());
        prev = next;
    }
}

#[test]
fn test_validation_ordering_empty_first() {
    // An empty input reports InvalidData before any length check could
    // fire, even though the output length disagrees too.
    let input: Vec<TAValue> = Vec::new();
    let mut output = vec![fx(0.0); 5];
    assert_eq!(
        sma::sma(cfg(true), &input, 3, &mut output),
        Err(KandError::InvalidData)
    );
    // The output buffer is untouched.
    for v in &output {
        assert_eq!(v.raw(), 0);
    }
}

#[test]
fn test_validation_ordering_lengths_before_nan() {
    // Mismatched lengths report LengthMismatch before any scan for
    // undefined samples.
    let mut input = fxv(&[1.0, 2.0, 3.0, 4.0, 5.0]);
    input[2] = TAValue::nan();
    let mut output = vec![fx(0.0); 4];
    assert_eq!(
        sma::sma(cfg(true), &input, 3, &mut output),
        Err(KandError::LengthMismatch)
    );
}

#[test]
fn test_validation_parameter_before_data() {
    // A parameter outside its domain is rejected before any data is
    // touched, even on an empty input.
    let input: Vec<TAValue> = Vec::new();
    let mut output: Vec<TAValue> = Vec::new();
    assert_eq!(
        sma::sma(cfg(true), &input, 1, &mut output),
        Err(KandError::InvalidParameter)
    );
}

#[test]
fn test_validation_insufficient_data() {
    let input = fxv(&[1.0, 2.0]);
    let mut output = vec![fx(0.0); 2];
    assert_eq!(
        sma::sma(cfg(true), &input, 3, &mut output),
        Err(KandError::InsufficientData)
    );
}

#[test]
fn test_validation_nan_detected() {
    let mut input = fxv(&[1.0, 2.0, 3.0, 4.0, 5.0]);
    input[4] = TAValue::nan();
    let mut output = vec![fx(0.0); 5];
    assert_eq!(
        sma::sma(cfg(true), &input, 3, &mut output),
        Err(KandError::NaNDetected)
    );

    // With the scan disabled the call succeeds and the undefined value
    // propagates through the affected windows instead.
    let relaxed = TAConfig {
        check_structure: true,
        check_nan: false,
        fill_invalid_with_nan: true,
    };
    sma::sma(relaxed, &input, 3, &mut output).unwrap();
    assert_close(output[2], 2.0, 1e-12);
    assert_close(output[3], 3.0, 1e-12);
    assert!(output[4].is_nan());
}

#[test]
fn test_sample_arithmetic_edges() {
    // Division by zero is the undefined value, not a trap.
    assert!(fx(1.0).div(fx(0.0)).is_nan());
    // The undefined value absorbs through arithmetic.
    assert!(TAValue::nan().add(fx(1.0)).is_nan());
    assert!(fx(2.0).mul(TAValue::nan()).is_nan());
    // A square root of a negative sample is undefined.
    assert!(fx(-4.0).sqrt().is_nan());
    // An exact square root comes out exactly.
    assert_eq!(fx(144.0).sqrt().raw(), fx(12.0).raw());
    // Overflow saturates to the undefined value.
    let big = TAValue::from_raw(100_000_000_000_000_000_000_000_000);
    assert!(big.mul(big).is_nan());
    assert!(big.add(big).is_nan());
    // A raw count beyond the finite range is the undefined value.
    assert!(TAValue::from_raw(i128::MAX).is_nan());
}
