use pump_fun_like::constants::FEE_RATE_BASIS_POINT;
use pump_fun_like::fee_math::{buy, sell};

#[test]
fn test_buy_maker_fee_rate_is_0() {
    assert_eq!(buy(0, 0), 0);
    assert_eq!(buy(1, 0), 0);
    assert_eq!(buy(1e9 as u64, 0), 0);
}

#[test]
fn test_buy_maker_fee_rate_is_0_dot_005() {
    assert_eq!(
        buy(1e9 as u64, (0.005 * FEE_RATE_BASIS_POINT as f64) as u32),
        5000000
    );
    assert_eq!(
        buy(333 as u64, (0.005 * FEE_RATE_BASIS_POINT as f64) as u32),
        1
    );
}

#[test]
fn test_sell_maker_fee_rate_is_0() {
    assert_eq!(sell(0, 0), 0);
    assert_eq!(sell(1, 0), 0);
    assert_eq!(sell(1e9 as u64, 0), 0);
}

#[test]
fn test_sell_maker_fee_rate_is_0_dot_005() {
    assert_eq!(
        sell(1e9 as u64, (0.005 * FEE_RATE_BASIS_POINT as f64) as u32),
        5000000
    );
    assert_eq!(
        sell(333 as u64, (0.005 * FEE_RATE_BASIS_POINT as f64) as u32),
        1
    );
}
