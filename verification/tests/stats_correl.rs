//! Correlation tests: perfect correlation both ways, degenerate
//! variance, lookback resolution, and reference values on recorded
//! market data.

use kand::stats::correl;
use kand::{TAConfig, TAValue};

/// One sample unit per `1e-12`: build a sample from a decimal literal.
fn fx(x: f64) -> TAValue {
    TAValue::from_raw(((x * 1e6).round() as i128) * 1_000_000)
}

fn fxv(xs: &[f64]) -> Vec<TAValue> {
    xs.iter().map(|&x| fx(x)).collect()
}

fn approx(v: TAValue) -> f64 {
    v.raw() as f64 / 1e12
}

fn assert_close(v: TAValue, expected: f64, eps: f64) {
    assert!(!v.is_nan(), "expected {expected}, got an undefined value");
    let got = approx(v);
    assert!(
        (got - expected).abs() <= eps,
        "expected {expected}, got {got}"
    );
}

fn cfg(fill: bool) -> TAConfig {
    TAConfig {
        check_structure: true,
        check_nan: true,
        fill_invalid_with_nan: fill,
    }
}

struct CorrelOut {
    correl: Vec<TAValue>,
    sum_0: Vec<TAValue>,
    sum_1: Vec<TAValue>,
    sum_0_sq: Vec<TAValue>,
    sum_1_sq: Vec<TAValue>,
    sum_01: Vec<TAValue>,
}

fn run_correl(input_0: &[f64], input_1: &[f64], period: usize, fill: bool) -> CorrelOut {
    let in_0 = fxv(input_0);
    let in_1 = fxv(input_1);
    let len = in_0.len();
    let mut out = CorrelOut {
        correl: vec![fx(0.0); len],
        sum_0: vec![fx(0.0); len],
        sum_1: vec![fx(0.0); len],
        sum_0_sq: vec![fx(0.0); len],
        sum_1_sq: vec![fx(0.0); len],
        sum_01: vec![fx(0.0); len],
    };
    correl::correl(
        cfg(fill),
        &in_0,
        &in_1,
        period,
        &mut out.correl,
        &mut out.sum_0,
        &mut out.sum_1,
        &mut out.sum_0_sq,
        &mut out.sum_1_sq,
        &mut out.sum_01,
    )
    .unwrap();
    out
}

#[test]
fn test_correl_perfect_positive() {
    // Perfectly correlated data (y = 2x).
    let input_0 = [1.0, 2.0, 3.0, 4.0, 5.0, 6.0];
    let input_1 = [2.0, 4.0, 6.0, 8.0, 10.0, 12.0];
    let param_period = 3;
    let out = run_correl(&input_0, &input_1, param_period, true);

    for i in 0..2 {
        assert!(out.correl[i].is_nan());
    }
    for i in 2..6 {
        assert_close(out.correl[i], 1.0, 0.0001);
    }

    // Incremental calculation must match.
    let in_0 = fxv(&input_0);
    let in_1 = fxv(&input_1);
    for i in 3..6 {
        let (inc_correl, _, _, _, _, _) = correl::correl_inc(
            cfg(true),
            in_0[i],
            in_1[i],
            in_0[i - param_period],
            in_1[i - param_period],
            out.sum_0[i - 1],
            out.sum_1[i - 1],
            out.sum_0_sq[i - 1],
            out.sum_1_sq[i - 1],
            out.sum_01[i - 1],
            param_period,
        )
        .unwrap();
        assert_eq!(inc_correl.raw(), out.correl[i].raw());
    }
}

#[test]
fn test_correl_perfect_negative() {
    // Perfectly negatively correlated data (y = -x + 10).
    let input_0 = [1.0, 2.0, 3.0, 4.0, 5.0];
    let input_1 = [9.0, 8.0, 7.0, 6.0, 5.0];
    let out = run_correl(&input_0, &input_1, 3, true);

    for i in 2..5 {
        assert_close(out.correl[i], -1.0, 0.0001);
    }
}

#[test]
fn test_correl_no_variance() {
    // One series has no variance: the correlation is undefined.
    let input_0 = [5.0, 5.0, 5.0, 5.0, 5.0];
    let input_1 = [1.0, 2.0, 3.0, 4.0, 5.0];
    let out = run_correl(&input_0, &input_1, 3, true);

    for i in 2..5 {
        assert!(out.correl[i].is_nan());
    }
}

#[test]
fn test_correl_lookback() {
    let lookback_5 = correl::lookback(5).unwrap();
    assert_eq!(lookback_5, 4);

    let lookback_30 = correl::lookback(30).unwrap();
    assert_eq!(lookback_30, 29);

    // An invalid period is rejected.
    let err = correl::lookback(1);
    assert!(err.is_err());
}

#[test]
fn test_talib_compatibility() {
    // Real BTC/ETH daily closing prices from Binance.
    // Tested against TA-Lib CORREL output with period=14.
    let input_0 = [
        103_297.99, 102_120.01, 100_963.87, 105_333.93, 106_083.0, 107_340.58, 106_947.06,
        107_047.59, 107_296.79, 108_356.93, 107_146.5, 105_681.14, 108_849.6, 109_584.78,
        107_984.24, 108_198.12, 109_203.84, 108_262.94, 108_922.98, 111_233.99, 116_010.0,
        117_527.66, 117_420.0, 119_086.64, 119_841.18, 117_758.09, 118_630.43, 119_177.56,
        117_924.84, 117_893.24,
    ];
    let input_1 = [
        2406.49, 2295.73, 2227.7, 2411.66, 2448.45, 2418.49, 2415.96, 2423.17, 2435.62, 2500.09,
        2485.47, 2405.01, 2570.41, 2591.25, 2508.04, 2516.41, 2570.35, 2542.29, 2615.25, 2768.74,
        2951.29, 2958.22, 2943.28, 2972.03, 3013.62, 3137.89, 3371.35, 3476.87, 3546.92, 3552.85,
    ];

    let param_period = 14;
    let out = run_correl(&input_0, &input_1, param_period, true);

    // First 13 values are undefined (lookback = period - 1).
    for i in 0..13 {
        assert!(out.correl[i].is_nan());
    }

    // Expected correlation values from TA-Lib (full precision).
    let expected_values = [
        0.916_557_037_193_843_8,
        0.948_314_436_127_766,
        0.942_234_310_162_226_4,
        0.893_845_548_132_203_3,
        0.897_952_381_223_419_8,
        0.911_695_501_638_574,
        0.952_458_493_129_686_4,
        0.975_493_184_636_118_3,
        0.978_325_130_734_52,
        0.982_342_459_884_886_4,
        0.981_909_093_602_057_7,
        0.982_283_404_493_009_1,
        0.963_186_856_345_845_4,
        0.918_423_909_392_030_3,
        0.890_700_952_050_942_8,
        0.837_192_365_846_861_5,
        0.786_620_100_233_665_4,
    ];

    for (i, &expected) in expected_values.iter().enumerate() {
        assert_close(out.correl[i + 13], expected, 0.000_000_000_1);
    }
}
