use stat::analysis::AnalysisError;
use stat::rational::{Rational, MAGNITUDE_LIMIT};

fn rat(num: i128, den: i128) -> Rational {
    Rational { num, den }
}

/// Rounds the exact value at `digits` decimals and returns it scaled by
/// `10^digits`: the value is truncated one digit past `digits`, and that
/// extra digit is resolved half-up.
fn half_up_scaled(v: &Rational, digits: u32) -> i128 {
    let shift = 10i128.pow(digits + 1);
    let truncated = v.num * shift / v.den;
    (truncated + 5).div_euclid(10)
}

/// The result denotes exactly `num / den`.
fn denotes(v: &Rational, num: i128, den: i128) -> bool {
    v.num * den == num * v.den
}

#[test]
fn relative_strength_index() {
    let tests: [(i128, i128, Result<i128, AnalysisError>); 24] = [
        (238386, 99593, Ok(70_532_785)),
        (221358, 112422, Ok(66_318_533)),
        (207690, 104392, Ok(66_549_817)),
        (219912, 96935, Ok(69_406_370)),
        (204204, 103540, Ok(66_355_152)),
        (189618, 137451, Ok(57_974_923)),
        (216667, 127633, Ok(62_929_712)),
        (204040, 118517, Ok(63_257_037)),
        (189466, 148508, Ok(56_059_342)),
        (228633, 137901, Ok(62_377_024)),
        (212302, 175765, Ok(54_707_563)),
        (197137, 193832, Ok(50_422_668)),
        (183056, 274701, Ok(39_989_776)),
        (180659, 255079, Ok(41_460_465)),
        (170598, 236859, Ok(41_868_958)),
        (183348, 219941, Ok(45_463_179)),
        (170252, 286138, Ok(37_304_060)),
        (158091, 319821, Ok(33_079_521)),
        (180270, 296977, Ok(37_772_893)),
        (1_000_000, 0, Ok(100_000_000)),
        (0, 1_000_000, Ok(0)),
        (1_000_000, 1_000_000, Ok(50_000_000)),
        (-1_000_000, 0, Err(AnalysisError::GainLessThanZero)),
        (0, -1_000_000, Err(AnalysisError::LossLessThanZero)),
    ];

    for test in &tests {
        let result = stat::analysis::momentum::relative_strength_index(
            rat(test.0, 1_000_000),
            rat(test.1, 1_000_000),
        );
        match (result, test.2.as_ref()) {
            (Ok(val), Ok(exp)) => assert_eq!(half_up_scaled(&val, 6), *exp),
            (Err(err), Err(exp)) => assert_eq!(err.description(), exp.description()),
            _ => panic!("return type mismatch"),
        }
    }
}

#[test]
fn stochastic_oscillator() {
    let tests: [(i128, i128, i128, Result<i128, AnalysisError>); 23] = [
        (1272876, 1284317, 1245615, Ok(70_438_220)),
        (1271781, 1284317, 1245615, Ok(67_608_909)),
        (1280138, 1284317, 1245615, Ok(89_202_108)),
        (1271085, 1284317, 1245615, Ok(65_810_552)),
        (1277253, 1284317, 1245615, Ok(81_747_713)),
        (1270587, 1284317, 1245615, Ok(64_523_797)),
        (1273273, 1282725, 1245615, Ok(74_529_776)),
        (1287103, 1287700, 1245615, Ok(98_581_442)),
        (1278745, 1292873, 1245615, Ok(70_104_533)),
        (1285809, 1300633, 1245615, Ok(73_056_091)),
        (1286008, 1300633, 1245615, Ok(73_417_791)),
        (1279342, 1300633, 1245715, Ok(61_231_290)),
        (1281133, 1300633, 1250689, Ok(60_956_271)),
        (1275960, 1300633, 1259245, Ok(40_386_102)),
        (1275960, 1300633, 1259245, Ok(40_386_102)),
        (1286904, 1300633, 1259245, Ok(66_828_549)),
        (1282725, 1300633, 1259245, Ok(56_731_420)),
        (1000000, 1000000, 1000000, Ok(50_000_000)),
        (1000000, 1000000, 0, Ok(100_000_000)),
        (0, 1000000, 0, Ok(0)),
        (1000000, 0, 1000000, Err(AnalysisError::HighLessThanLow)),
        (1000000, 0, 0, Err(AnalysisError::CloseGreaterThanHigh)),
        (0, 1000000, 1000000, Err(AnalysisError::CloseLessThanLow)),
    ];

    for test in &tests {
        let result = stat::analysis::momentum::stochastic_oscillator(
            rat(test.0, 10_000),
            rat(test.1, 10_000),
            rat(test.2, 10_000),
        );
        match (result, test.3.as_ref()) {
            (Ok(val), Ok(exp)) => assert_eq!(half_up_scaled(&val, 6), *exp),
            (Err(err), Err(exp)) => assert_eq!(err.description(), exp.description()),
            _ => panic!("return type mismatch"),
        }
    }
}

#[test]
fn williams_percent_r() {
    let tests: [(i128, i128, i128, Result<i128, AnalysisError>); 23] = [
        (1272876, 1284317, 1245615, Ok(-29_561_780)),
        (1271781, 1284317, 1245615, Ok(-32_391_091)),
        (1280138, 1284317, 1245615, Ok(-10_797_891)),
        (1271085, 1284317, 1245615, Ok(-34_189_447)),
        (1277253, 1284317, 1245615, Ok(-18_252_287)),
        (1270587, 1284317, 1245615, Ok(-35_476_203)),
        (1273273, 1282725, 1245615, Ok(-25_470_224)),
        (1287103, 1287700, 1245615, Ok(-1_418_558)),
        (1278745, 1292873, 1245615, Ok(-29_895_467)),
        (1285809, 1300633, 1245615, Ok(-26_943_909)),
        (1286008, 1300633, 1245615, Ok(-26_582_209)),
        (1279342, 1300633, 1245715, Ok(-38_768_710)),
        (1281133, 1300633, 1250689, Ok(-39_043_729)),
        (1275960, 1300633, 1259245, Ok(-59_613_898)),
        (1275960, 1300633, 1259245, Ok(-59_613_898)),
        (1286904, 1300633, 1259245, Ok(-33_171_451)),
        (1282725, 1300633, 1259245, Ok(-43_268_580)),
        (1000000, 1000000, 1000000, Ok(-50_000_000)),
        (1000000, 1000000, 0, Ok(0)),
        (0, 1000000, 0, Ok(-100_000_000)),
        (1000000, 0, 1000000, Err(AnalysisError::HighLessThanLow)),
        (1000000, 0, 0, Err(AnalysisError::CloseGreaterThanHigh)),
        (0, 1000000, 1000000, Err(AnalysisError::CloseLessThanLow)),
    ];

    for test in &tests {
        let result = stat::analysis::momentum::williams_percent_r(
            rat(test.0, 10_000),
            rat(test.1, 10_000),
            rat(test.2, 10_000),
        );
        match (result, test.3.as_ref()) {
            (Ok(val), Ok(exp)) => assert_eq!(half_up_scaled(&val, 6), *exp),
            (Err(err), Err(exp)) => assert_eq!(err.description(), exp.description()),
            _ => panic!("return type mismatch"),
        }
    }
}

#[test]
fn relative_strength_index_example() {
    let result = stat::analysis::momentum::relative_strength_index(rat(60, 1), rat(20, 1));
    let value = result.unwrap();
    assert!(denotes(&value, 75, 1));
}

#[test]
fn relative_strength_index_equal_positive_inputs() {
    let result = stat::analysis::momentum::relative_strength_index(rat(7, 3), rat(7, 3));
    let value = result.unwrap();
    assert!(denotes(&value, 50, 1));
}

#[test]
fn relative_strength_index_at_magnitude_limit() {
    let result = stat::analysis::momentum::relative_strength_index(
        rat(MAGNITUDE_LIMIT, MAGNITUDE_LIMIT),
        rat(MAGNITUDE_LIMIT, MAGNITUDE_LIMIT),
    );
    let value = result.unwrap();
    assert!(denotes(&value, 50, 1));
}

#[test]
fn relative_strength_index_determinism() {
    let first = stat::analysis::momentum::relative_strength_index(rat(9, 4), rat(3, 7)).unwrap();
    let second = stat::analysis::momentum::relative_strength_index(rat(9, 4), rat(3, 7)).unwrap();
    assert_eq!(first.num, second.num);
    assert_eq!(first.den, second.den);
}

#[test]
fn stochastic_oscillator_example() {
    let result =
        stat::analysis::momentum::stochastic_oscillator(rat(80, 1), rat(90, 1), rat(50, 1));
    let value = result.unwrap();
    assert!(denotes(&value, 75, 1));
}

#[test]
fn stochastic_oscillator_flat_range() {
    let result =
        stat::analysis::momentum::stochastic_oscillator(rat(42, 10), rat(42, 10), rat(42, 10));
    let value = result.unwrap();
    assert_eq!(value.num, 50);
    assert_eq!(value.den, 1);
}

#[test]
fn williams_percent_r_example() {
    let result =
        stat::analysis::momentum::williams_percent_r(rat(80, 1), rat(90, 1), rat(50, 1));
    let value = result.unwrap();
    assert!(denotes(&value, -25, 1));
}

#[test]
fn williams_percent_r_flat_range() {
    let result =
        stat::analysis::momentum::williams_percent_r(rat(42, 10), rat(42, 10), rat(42, 10));
    let value = result.unwrap();
    assert_eq!(value.num, -50);
    assert_eq!(value.den, 1);
}

#[test]
fn validation_order_prefers_high_less_than_low() {
    let result =
        stat::analysis::momentum::stochastic_oscillator(rat(5, 1), rat(1, 1), rat(9, 1));
    match result {
        Err(err) => assert_eq!(err.description(), "high < low"),
        Ok(_) => panic!("return type mismatch"),
    }
}

#[test]
fn analysis_error_descriptions() {
    assert_eq!(AnalysisError::GainLessThanZero.description(), "gain < 0");
    assert_eq!(AnalysisError::LossLessThanZero.description(), "loss < 0");
    assert_eq!(AnalysisError::CloseGreaterThanHigh.description(), "close > high");
    assert_eq!(AnalysisError::CloseLessThanLow.description(), "close < low");
    assert_eq!(AnalysisError::HighLessThanLow.description(), "high < low");
    assert_eq!(AnalysisError::SliceIsEmpty.description(), "slice is empty");
}
