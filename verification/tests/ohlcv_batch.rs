//! Batch and incremental agreement tests for the OHLCV indicators, on
//! recorded market data.

use kand::ohlcv::{ad, adosc, adr, ha, rocp, sma, wma};
use kand::{TAConfig, TAValue};

const EPSILON: f64 = 1e-6;

/// One sample unit per `1e-12`: build a sample from a decimal literal.
fn fx(x: f64) -> TAValue {
    TAValue::from_raw(((x * 1e6).round() as i128) * 1_000_000)
}

fn fxv(xs: &[f64]) -> Vec<TAValue> {
    xs.iter().map(|&x| fx(x)).collect()
}

fn approx(v: TAValue) -> f64 {
    v.raw() as f64 / 1e12
}

fn assert_close(v: TAValue, expected: f64, eps: f64) {
    assert!(!v.is_nan(), "expected {expected}, got an undefined value");
    let got = approx(v);
    assert!(
        (got - expected).abs() <= eps,
        "expected {expected}, got {got}"
    );
}

fn cfg(fill: bool) -> TAConfig {
    TAConfig {
        check_structure: true,
        check_nan: true,
        fill_invalid_with_nan: fill,
    }
}

const HIGH_100: [f64; 100] = [
    35266.0, 35247.5, 35235.7, 35190.8, 35182.0, 35258.0, 35262.9, 35281.5, 35256.0, 35210.0,
    35185.4, 35230.0, 35241.0, 35218.1, 35212.6, 35128.9, 35047.7, 35019.5, 35078.8, 35085.0,
    35034.1, 34984.4, 35010.8, 35047.1, 35091.4, 35150.4, 35123.9, 35110.0, 35092.1, 35179.2,
    35244.9, 35150.2, 35136.0, 35133.6, 35188.0, 35215.3, 35221.9, 35219.2, 35234.0, 35216.7,
    35197.9, 35178.4, 35183.4, 35129.7, 35149.1, 35129.3, 35125.5, 35114.5, 35120.1, 35129.4,
    35105.4, 35054.1, 35034.6, 35032.9, 35070.8, 35086.0, 35086.9, 35048.9, 34988.6, 35004.3,
    34985.0, 35004.2, 35010.0, 35041.8, 35024.7, 34982.0, 35018.0, 34978.2, 34959.5, 34965.0,
    34985.3, 35002.4, 35018.0, 34989.0, 34943.0, 34900.0, 34932.1, 34930.0, 34920.3, 34929.9,
    34940.0, 35019.7, 35009.1, 34980.2, 34977.3, 34976.1, 34969.4, 35000.0, 35010.0, 35015.9,
    35062.9, 35084.8, 35085.1, 35077.9, 35118.0, 35104.0, 35086.2, 35041.7, 35009.2, 34994.2,
];

const LOW_100: [f64; 100] = [
    35216.1, 35206.5, 35180.0, 35130.7, 35153.6, 35174.7, 35202.6, 35203.5, 35175.0, 35166.0,
    35170.9, 35154.1, 35186.0, 35143.9, 35080.1, 35021.1, 34950.1, 34966.0, 35012.3, 35022.2,
    34931.6, 34911.0, 34952.5, 34977.9, 35039.0, 35073.0, 35055.0, 35084.0, 35060.0, 35073.1,
    35090.0, 35072.0, 35078.0, 35088.0, 35124.8, 35169.4, 35138.0, 35141.0, 35182.0, 35151.1,
    35158.4, 35140.0, 35087.0, 35085.8, 35114.7, 35086.0, 35090.6, 35074.1, 35078.4, 35100.0,
    35030.2, 34986.3, 34988.1, 34973.1, 35012.3, 35048.3, 35038.9, 34937.3, 34937.0, 34958.7,
    34925.0, 34910.0, 34981.6, 34980.2, 34982.0, 34940.9, 34970.0, 34924.7, 34922.1, 34914.0,
    34955.8, 34975.0, 34975.0, 34926.0, 34865.1, 34821.0, 34830.4, 34883.5, 34888.5, 34904.6,
    34880.6, 34934.0, 34978.5, 34965.9, 34936.4, 34942.5, 34945.0, 34969.3, 34983.8, 35003.9,
    35001.1, 35032.1, 35027.3, 35062.3, 35067.8, 35070.7, 35030.2, 34981.0, 34970.5, 34974.5,
];

const CLOSE_100: [f64; 100] = [
    35216.1, 35221.4, 35190.7, 35170.0, 35181.5, 35254.6, 35202.8, 35251.9, 35197.6, 35184.7,
    35175.1, 35229.9, 35212.5, 35160.7, 35090.3, 35041.2, 34999.3, 35013.4, 35069.0, 35024.6,
    34939.5, 34952.6, 35000.0, 35041.8, 35080.0, 35114.5, 35097.2, 35092.0, 35073.2, 35139.3,
    35092.0, 35126.7, 35106.3, 35124.8, 35170.1, 35215.3, 35154.0, 35216.3, 35211.8, 35158.4,
    35172.0, 35176.7, 35113.3, 35114.7, 35129.3, 35094.6, 35114.4, 35094.5, 35116.0, 35105.4,
    35050.7, 35031.3, 35008.1, 35021.4, 35048.4, 35080.1, 35043.6, 34962.7, 34970.1, 34980.1,
    34930.6, 35000.0, 34998.0, 35024.7, 34982.1, 34972.3, 34971.6, 34953.0, 34937.0, 34964.3,
    34975.1, 34995.1, 34989.0, 34942.9, 34895.2, 34830.4, 34925.1, 34888.6, 34910.3, 34917.6,
    34940.0, 35005.4, 34980.1, 34966.8, 34976.1, 34948.6, 34969.3, 34996.5, 35004.0, 35011.0,
    35059.2, 35036.1, 35062.3, 35067.7, 35087.9, 35076.7, 35041.6, 34993.3, 34974.5, 34990.2,
];

const VOLUME_100: [f64; 100] = [
    1055.365, 756.488, 682.152, 1197.747, 425.97, 859.638, 741.925, 888.477, 1043.333, 467.901,
    387.47, 566.099, 672.296, 834.915, 1854.024, 3670.795, 3761.198, 1605.442, 1726.574, 934.713,
    2199.061, 2349.823, 837.218, 1000.638, 1218.202, 2573.668, 1098.409, 609.582, 670.489,
    1637.998, 2682.922, 923.588, 554.766, 510.261, 882.672, 1087.53, 1164.362, 991.265, 1042.659,
    748.721, 469.772, 419.244, 896.583, 736.185, 510.968, 503.042, 376.2, 592.877, 580.915,
    333.615, 1106.869, 1761.343, 506.403, 1181.917, 817.219, 727.725, 723.652, 1702.198, 769.212,
    414.213, 702.499, 1083.179, 411.098, 971.148, 774.147, 376.625, 333.361, 666.541, 418.598,
    836.645, 506.807, 418.69, 606.013, 658.819, 1776.331, 1757.305, 985.24, 607.588, 350.444,
    402.724, 476.235, 1899.96, 546.185, 233.707, 612.487, 313.292, 167.004, 298.175, 397.43,
    194.525, 685.384, 737.572, 576.129, 264.406, 577.913, 314.803, 694.229, 1253.468, 466.235,
    248.839,
];

const PRICES_40: [f64; 40] = [
    35216.1, 35221.4, 35190.7, 35170.0, 35181.5, 35254.6, 35202.8, 35251.9, 35197.6, 35184.7,
    35175.1, 35229.9, 35212.5, 35160.7, 35090.3, 35041.2, 34999.3, 35013.4, 35069.0, 35024.6,
    34939.5, 34952.6, 35000.0, 35041.8, 35080.0, 35114.5, 35097.2, 35092.0, 35073.2, 35139.3,
    35092.0, 35126.7, 35106.3, 35124.8, 35170.1, 35215.3, 35154.0, 35216.3, 35211.8, 35158.4,
];

#[test]
fn test_ad_calculation() {
    let input_high = fxv(&HIGH_100[..25]);
    let input_low = fxv(&LOW_100[..25]);
    let input_close = fxv(&CLOSE_100[..25]);
    let input_volume = fxv(&VOLUME_100[..25]);
    let mut output_ad = vec![fx(0.0); 25];

    ad::ad(
        cfg(false),
        &input_high,
        &input_low,
        &input_close,
        &input_volume,
        &mut output_ad,
    )
    .unwrap();

    let expected_values = [
        -1_055.365,
        -1_262.015_380_487_751_1,
        -1_682.083_847_274_164,
        -1_313.393_007_007_976_8,
        -902.421_950_669_947_9,
        -112.958_481_282_220_36,
        -849.961_922_409_807_9,
        -635.816_183_948_236_4,
        -1_096.943_608_639_632,
        -1_167.128_758_639_693_8,
        -1_330.133_379_329_504_6,
        -765.526_076_299_179_7,
        -789.973_203_571_907,
        -1_246.813_486_590_858_2,
        -2_815.387_753_760_547,
        -5_117.296_306_636_379,
        -5_086.466_814_832_707,
        -3_847.125_607_355_984_4,
        -2_629.436_575_777_188,
        -3_492.706_543_930_014,
        -5_352.790_336_125_074,
        -5_039.053_750_294_157,
        -4_512.022_865_217_038,
        -3_664.661_784_292_062_7,
        -2_976.517_143_070_741_4,
    ];

    for (i, &expected) in expected_values.iter().enumerate() {
        assert_close(output_ad[i], expected, EPSILON);
    }

    // Incremental calculation must match the full series.
    let mut prev_ad = output_ad[0];
    for i in 1..input_high.len() {
        let result = ad::ad_inc(
            cfg(false),
            input_high[i],
            input_low[i],
            input_close[i],
            input_volume[i],
            prev_ad,
        )
        .unwrap();
        assert_eq!(result.raw(), output_ad[i].raw());
        prev_ad = result;
    }
}

#[test]
fn test_adosc_calculation() {
    let input_high = fxv(&HIGH_100);
    let input_low = fxv(&LOW_100);
    let input_close = fxv(&CLOSE_100);
    let input_volume = fxv(&VOLUME_100);
    let param_fast_period = 3;
    let param_slow_period = 10;
    let mut output_adosc = vec![fx(0.0); 100];
    let mut output_ad = vec![fx(0.0); 100];
    let mut output_ad_fast_ema = vec![fx(0.0); 100];
    let mut output_ad_slow_ema = vec![fx(0.0); 100];

    adosc::adosc(
        cfg(false),
        &input_high,
        &input_low,
        &input_close,
        &input_volume,
        param_fast_period,
        param_slow_period,
        &mut output_adosc,
        &mut output_ad,
        &mut output_ad_fast_ema,
        &mut output_ad_slow_ema,
    )
    .unwrap();

    let expected_values = [
        0.0,
        0.0,
        0.0,
        0.0,
        0.0,
        0.0,
        0.0,
        0.0,
        0.0,
        -20.897_560_400_954_944,
        -113.006_596_430_246_87,
        39.233_539_470_168_466,
        90.168_278_254_455_34,
        -42.550_171_226_589_67,
        -592.067_697_274_955_4,
        -1495.471_434_093_873_8,
        -1719.284_357_755_546_8,
        -1260.209_773_442_224_6,
        -570.395_499_498_773_5,
        -511.021_422_797_917_7,
        -1032.120_377_773_458_1,
        -1051.642_820_428_754_5,
        -796.333_736_224_223_7,
        -349.880_245_462_221_4,
        83.522_227_098_310_85,
        312.478_479_876_569_96,
        456.358_684_600_642_4,
        399.132_419_401_690_64,
        301.554_565_477_041_25,
        363.412_358_422_480_8,
        -475.932_587_904_782_4,
        -658.787_445_656_951_6,
        -677.962_679_865_731_4,
        -524.481_981_814_993_1,
        -292.253_246_808_773_84,
        175.350_167_221_840_37,
        121.525_736_229_688_85,
        380.468_332_324_480_8,
        500.298_653_312_819_17,
        318.629_613_122_204_8,
        168.799_403_197_662_74,
        213.744_556_233_260_03,
        83.082_596_846_209_07,
        96.244_336_691_993_8,
        68.303_043_208_752_11,
        -45.815_725_437_386_39,
        -44.777_157_576_240_825,
        -38.413_888_892_083_83,
        116.171_265_425_306_05,
        101.693_356_373_634_74,
        -73.643_785_940_669_2,
        44.825_022_944_714_42,
        66.691_232_998_159_65,
        300.997_969_076_142_45,
        430.381_835_636_462_7,
        603.260_661_313_950_1,
        433.980_224_577_686_84,
        30.206_550_097_492_254,
        -68.468_876_257_924_42,
        -110.704_331_064_092_46,
        -299.716_667_630_496_9,
        -35.877_993_320_214_046,
        95.583_039_929_305_87,
        278.118_719_322_890_7,
        82.343_107_720_553_23,
        58.038_015_167_665_89,
        -56.179_275_588_915_516,
        -85.508_505_250_133_11,
        -116.798_729_011_984_05,
        139.916_423_976_043_46,
        281.960_199_020_270_9,
        376.670_218_959_854_54,
        313.908_880_573_037_55,
        162.537_450_978_871_22,
        -42.584_065_563_915_83,
        -548.706_875_059_190_2,
        -435.543_557_433_369_64,
        -500.571_623_447_350_7,
        -440.291_467_418_113_37,
        -372.059_546_147_532_3,
        -158.793_574_159_791_66,
        345.674_058_599_960_06,
        365.009_843_917_410_76,
        274.736_072_570_696_25,
        396.276_482_140_549_9,
        346.483_325_557_857_37,
        347.316_995_690_533_53,
        389.325_156_813_214_1,
        439.653_796_951_506_8,
        431.621_550_770_050_36,
        581.061_289_074_445_3,
        390.315_324_963_115_7,
        315.492_200_162_527_07,
        230.315_728_813_188_12,
        137.903_252_420_144_1,
        23.492_246_296_503_254,
        -156.404_749_053_747_76,
        -452.976_229_976_808_8,
        -650.802_619_576_638_8,
        -625.544_385_992_726_3,
    ];
    for (i, &expected) in expected_values.iter().enumerate() {
        assert_close(output_adosc[i], expected, 1e-4);
    }

    let mut prev_ad = output_ad[9];
    let mut prev_ad_fast_ema = output_ad_fast_ema[9];
    let mut prev_ad_slow_ema = output_ad_slow_ema[9];

    for i in 10..input_high.len() {
        let (adosc_inc, ad_inc, fast_inc, slow_inc) = adosc::adosc_inc(
            cfg(false),
            input_high[i],
            input_low[i],
            input_close[i],
            input_volume[i],
            prev_ad,
            prev_ad_fast_ema,
            prev_ad_slow_ema,
            param_fast_period,
            param_slow_period,
        )
        .unwrap();
        assert_eq!(adosc_inc.raw(), output_adosc[i].raw());
        assert_eq!(ad_inc.raw(), output_ad[i].raw());
        assert_eq!(fast_inc.raw(), output_ad_fast_ema[i].raw());
        assert_eq!(slow_inc.raw(), output_ad_slow_ema[i].raw());
        prev_ad = ad_inc;
        prev_ad_fast_ema = fast_inc;
        prev_ad_slow_ema = slow_inc;
    }
}

#[test]
fn test_adr_calculation() {
    const ADR_EPSILON: f64 = 1e-9;

    let input_high = fxv(&HIGH_100);
    let input_low = fxv(&LOW_100);
    let mut output_adr = vec![fx(0.0); 100];
    let period = 3;

    adr::adr(cfg(true), &input_high, &input_low, period, &mut output_adr).unwrap();

    let expected_values: [f64; 100] = [
        f64::NAN,
        f64::NAN,
        48.866_666_666_666_183_971_30,
        52.266_666_666_667_639_162_82,
        48.066_666_666_668_119_489_71,
        57.266_666_666_670_062_113_55,
        57.333_333_333_335_758_652_54,
        73.866_666_666_668_606_922_03,
        73.100_000_000_000_974_864_63,
        67.666_666_666_666_671_403_62,
        46.500_000_000_000_000_000_00,
        44.800_000_000_000_487_432_32,
        48.466_666_666_667_151_730_51,
        68.366_666_666_666_176_865_87,
        87.233_333_333_332_367_942_60,
        104.833_333_333_333_328_596_38,
        112.633_333_333_333_823_134_13,
        86.300_000_000_000_480_326_89,
        72.533_333_333_332_848_269_49,
        60.933_333_333_334_303_461_02,
        77.266_666_666_667_632_057_40,
        79.566_666_666_668_126_595_14,
        78.066_666_666_668_126_595_14,
        66.966_666_666_667_151_730_51,
        59.966_666_666_667_151_730_51,
        66.333_333_333_333_328_596_38,
        66.233_333_333_334_783_787_90,
        57.433_333_333_334_303_461_02,
        42.333_333_333_333_335_701_81,
        54.733_333_333_332_360_837_18,
        97.699_999_999_999_519_673_11,
        113.066_666_666_665_696_538_98,
        97.033_333_333_332_848_269_49,
        60.599_999_999_998_544_808_48,
        55.599_999_999_998_544_808_48,
        51.566_666_666_665_696_538_98,
        64.333_333_333_333_328_596_38,
        69.333_333_333_333_328_596_38,
        71.366_666_666_666_176_865_87,
        65.266_666_666_665_216_212_10,
        52.366_666_666_666_183_971_30,
        47.833_333_333_333_335_701_81,
        58.100_000_000_000_967_759_21,
        59.566_666_666_665_696_538_98,
        58.233_333_333_332_360_837_18,
        40.533_333_333_332_848_269_49,
        37.533_333_333_335_271_220_22,
        39.533_333_333_335_271_220_22,
        39.000_000_000_000_000_000_00,
        37.166_666_666_666_664_298_19,
        48.766_666_666_667_639_162_82,
        57.466_666_666_667_151_730_51,
        63.166_666_666_666_664_298_19,
        58.033_333_333_332_848_269_49,
        54.933_333_333_334_303_461_02,
        52.000_000_000_000_000_000_00,
        48.066_666_666_665_696_538_98,
        65.766_666_666_665_216_212_10,
        70.399_999_999_999_025_135_37,
        69.600_000_000_000_974_864_63,
        52.400_000_000_001_455_191_52,
        66.600_000_000_000_974_864_63,
        60.866_666_666_666_183_971_30,
        61.400_000_000_001_455_191_52,
        44.233_333_333_334_790_893_33,
        48.466_666_666_667_151_730_51,
        43.933_333_333_331_880_510_29,
        47.533_333_333_332_848_269_49,
        46.300_000_000_000_487_432_32,
        47.300_000_000_000_487_432_32,
        39.300_000_000_000_487_432_32,
        35.966_666_666_667_151_730_51,
        33.300_000_000_000_487_432_32,
        44.466_666_666_667_151_730_51,
        61.300_000_000_000_487_432_32,
        73.300_000_000_000_480_326_89,
        86.199_999_999_999_519_673_11,
        75.733_333_333_332_367_942_60,
        60.000_000_000_000_000_000_00,
        34.533_333_333_335_271_220_22,
        38.833_333_333_335_758_652_54,
        56.800_000_000_000_487_432_32,
        58.566_666_666_665_696_538_98,
        43.533_333_333_330_425_318_76,
        28.599_999_999_998_544_808_48,
        29.599_999_999_998_544_808_48,
        32.966_666_666_667_151_730_51,
        29.566_666_666_665_696_538_98,
        27.099_999_999_998_544_808_48,
        22.966_666_666_664_725_227_06,
        33.333_333_333_333_335_701_81,
        42.166_666_666_669_094_354_35,
        57.433_333_333_334_303_461_02,
        42.033_333_333_332_848_269_49,
        41.199_999_999_997_089_616_95,
        33.033_333_333_332_848_269_49,
        46.500_000_000_000_000_000_00,
        50.000_000_000_000_000_000_00,
        51.799_999_999_998_057_376_16,
        39.699_999_999_997_089_616_95,
    ];

    for (i, &expected) in expected_values.iter().enumerate() {
        if expected.is_nan() {
            assert!(output_adr[i].is_nan());
        } else {
            assert_close(output_adr[i], expected, ADR_EPSILON);
        }
    }

    let lookback = adr::lookback(period).unwrap();
    let mut prev_adr = output_adr[lookback];

    for i in (lookback + 1)..input_high.len() {
        let next_adr = adr::adr_inc(
            cfg(true),
            prev_adr,
            input_high[i],
            input_low[i],
            input_high[i - period],
            input_low[i - period],
            period,
        )
        .unwrap();
        assert_eq!(next_adr.raw(), output_adr[i].raw());
        prev_adr = next_adr;
    }
}

#[test]
fn test_ha_calculation() {
    let input_open = fxv(&[10.0, 10.5, 11.2, 10.8, 11.5]);
    let input_high = fxv(&[11.0, 11.5, 11.8, 11.3, 12.0]);
    let input_low = fxv(&[9.5, 10.2, 10.8, 10.5, 11.3]);
    let input_close = fxv(&[10.8, 11.3, 11.5, 11.0, 11.8]);

    let mut output_open = vec![fx(0.0); 5];
    let mut output_high = vec![fx(0.0); 5];
    let mut output_low = vec![fx(0.0); 5];
    let mut output_close = vec![fx(0.0); 5];

    ha::ha(
        cfg(false),
        &input_open,
        &input_high,
        &input_low,
        &input_close,
        &mut output_open,
        &mut output_high,
        &mut output_low,
        &mut output_close,
    )
    .unwrap();

    // First candle.
    assert_close(output_open[0], 10.4, 0.0001);
    assert_close(output_high[0], 11.0, 0.0001);
    assert_close(output_low[0], 9.5, 0.0001);
    assert_close(output_close[0], 10.325, 0.0001);

    // Second candle.
    assert_close(output_open[1], 10.3625, 0.0001);
    assert_close(output_close[1], 10.875, 0.0001);
    assert_close(output_high[1], 11.5, 0.0001);
    assert_close(output_low[1], 10.2, 0.0001);

    // Incremental calculation must match the full series.
    for i in 1..5 {
        let (ha_open, ha_high, ha_low, ha_close) = ha::ha_inc(
            cfg(false),
            input_open[i],
            input_high[i],
            input_low[i],
            input_close[i],
            output_open[i - 1],
            output_close[i - 1],
        )
        .unwrap();
        assert_eq!(ha_open.raw(), output_open[i].raw());
        assert_eq!(ha_high.raw(), output_high[i].raw());
        assert_eq!(ha_low.raw(), output_low[i].raw());
        assert_eq!(ha_close.raw(), output_close[i].raw());
    }
}

#[test]
fn test_rocp_calculation() {
    let input_price = fxv(&PRICES_40[..20]);
    let opt_period = 10;
    let mut output_rocp = vec![fx(0.0); 20];

    rocp::rocp(cfg(true), &input_price, opt_period, &mut output_rocp).unwrap();

    for value in output_rocp.iter().take(10) {
        assert!(value.is_nan());
    }

    let expected_values = [
        -0.001_164_240_219_672_252_2,
        0.000_241_330_554_719_573_87,
        0.000_619_481_851_739_320_6,
        -0.000_264_429_911_856_778_8,
        -0.002_592_271_506_331_37,
        -0.006_053_110_799_725_468,
        -0.005_780_790_164_418_739,
        -0.006_765_592_776_559_561,
        -0.003_653_658_203_968_411_3,
        -0.004_550_273_272_189_292,
    ];

    for (i, expected) in expected_values.iter().enumerate() {
        assert_close(output_rocp[i + 10], *expected, 0.000_000_1);
    }

    for i in opt_period..input_price.len() {
        let result =
            rocp::rocp_inc(cfg(true), input_price[i], input_price[i - opt_period]).unwrap();
        assert_eq!(result.raw(), output_rocp[i].raw());
    }
}

const SMA_EXPECTED: [f64; 13] = [
    35_203.535_714_285_72,
    35_194.55,
    35_181.678_571_428_57,
    35_168.007_142_857_15,
    35_156.821_428_571_435,
    35_148.785_714_285_72,
    35_132.357_142_857_145,
    35_113.55,
    35_092.171_428_571_43,
    35_078.057_142_857_15,
    35_067.85,
    35_061.057_142_857_15,
    35_052.814_285_714_29,
];

#[test]
fn test_sma_with_nan() {
    let period = 14;
    let lookback = period - 1;
    let input = fxv(&PRICES_40[..39]);
    let mut output_sma = vec![fx(0.0); 39];
    sma::sma(cfg(true), &input, period, &mut output_sma).unwrap();

    // Initial values are filled with the undefined value.
    for value in output_sma.iter().take(lookback) {
        assert!(value.is_nan());
    }

    for (i, &expected) in SMA_EXPECTED.iter().enumerate() {
        assert_close(output_sma[lookback + i], expected, 1e-8);
    }

    // Incremental calculation must match the full series.
    let mut prev_sma = output_sma[lookback];
    for i in (lookback + 1)..input.len() {
        let result =
            sma::sma_inc(cfg(true), prev_sma, input[i], input[i - period], period).unwrap();
        assert_eq!(result.raw(), output_sma[i].raw());
        prev_sma = result;
    }
}

#[test]
fn test_sma_without_nan() {
    let period = 14;
    let lookback = period - 1;
    let input = fxv(&PRICES_40[..39]);
    let mut output_sma = vec![fx(0.0); 39];
    sma::sma(cfg(false), &input, period, &mut output_sma).unwrap();

    // Initial values keep the caller's buffer contents.
    for value in output_sma.iter().take(lookback) {
        assert_eq!(value.raw(), 0);
    }

    for (i, &expected) in SMA_EXPECTED.iter().enumerate() {
        assert_close(output_sma[lookback + i], expected, 1e-8);
    }

    let mut prev_sma = output_sma[lookback];
    for i in (lookback + 1)..input.len() {
        let result =
            sma::sma_inc(cfg(false), prev_sma, input[i], input[i - period], period).unwrap();
        assert_eq!(result.raw(), output_sma[i].raw());
        prev_sma = result;
    }
}

#[test]
fn test_wma_calculation() {
    let input = fxv(&PRICES_40);
    let opt_period = 30;
    let mut output = vec![fx(0.0); 40];

    wma::wma(cfg(true), &input, opt_period, &mut output).unwrap();

    for value in output.iter().take(29) {
        assert!(value.is_nan());
    }

    let expected_values = [
        35_086.706_666_666_67,
        35_084.862_795_698_93,
        35_085.524_516_129_04,
        35_085.073_763_440_865,
        35_085.998_064_516_134,
        35_089.942_150_537_645,
        35_096.826_881_720_44,
        35_099.841_290_322_58,
        35106.98,
        35_113.904_946_236_566,
        35_117.354_193_548_395,
    ];

    for (i, expected) in expected_values.iter().enumerate() {
        assert_close(output[i + 29], *expected, 0.0001);
    }

    // Incremental calculation over the explicit window, newest first.
    for i in 30..35 {
        let window: Vec<TAValue> = input[i - (opt_period - 1)..=i].iter().rev().copied().collect();
        let result = wma::wma_inc(cfg(true), &window, opt_period).unwrap();
        assert_eq!(result.raw(), output[i].raw());
    }
}
