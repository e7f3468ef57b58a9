use amm_contract::{quote_swap, ErrorCode, FEE_SCALE};

#[test]
fn quote_takes_the_fee_first_and_rounds_both_steps_down() {
    // fee = 100 * 30 / 1000 = 3, effective = 97, out = 97 * 500 / 597 = 81
    assert_eq!(quote_swap(100, 500, 500, 30), Ok((81, 3)));
    // fee = 10 * 30 / 1000 = 0, effective = 10, out = 10 * 100 / 110 = 9
    assert_eq!(quote_swap(10, 100, 100, 30), Ok((9, 0)));
    // fee = 1999 * 500 / 1000 = 999, effective = 1000, out = 1000 * 300 / 1200 = 250
    assert_eq!(quote_swap(1999, 200, 300, 500), Ok((250, 999)));
}

#[test]
fn quote_without_a_fee_is_the_bare_curve() {
    assert_eq!(quote_swap(100, 1000, 1000, 0), Ok((90, 0)));
    assert_eq!(quote_swap(1000, 1000, 1000, 0), Ok((500, 0)));
    assert_eq!(quote_swap(1, 1, 1, 0), Ok((0, 0)));
}

#[test]
fn quote_of_a_small_amount_may_pay_nothing() {
    assert_eq!(quote_swap(1, 1000, 1000, 30), Ok((0, 0)));
    assert_eq!(quote_swap(1, 1000, 999, 0), Ok((0, 0)));
    assert_eq!(quote_swap(1000, 10, 10, 999), Ok((0, 999)));
}

#[test]
fn quote_of_the_largest_amounts_does_not_overflow() {
    // effective = 2^64 - 1, out = (2^64 - 1)^2 / (2 * (2^64 - 1)) = (2^64 - 1) / 2
    assert_eq!(quote_swap(u64::MAX, u64::MAX, u64::MAX, 0), Ok((u64::MAX / 2, 0)));
    // fee = (2^64 - 1) * 999 / 1000
    let fee = (u64::MAX as u128 * 999 / 1000) as u64;
    assert_eq!(fee, 18_428_297_329_635_842_063);
    let effective = (u64::MAX - fee) as u128;
    let out = (effective * u64::MAX as u128 / (u64::MAX as u128 + effective)) as u64;
    assert_eq!(quote_swap(u64::MAX, u64::MAX, u64::MAX, 999), Ok((out, fee)));
    // effective = 2^64 - 1 against a reserve of one:
    // out = (2^64 - 1)^2 / 2^64 = (2^128 - 2^65 + 1) / 2^64 = 2^64 - 2
    assert_eq!(quote_swap(u64::MAX, 1, u64::MAX, 0), Ok((u64::MAX - 1, 0)));
}

#[test]
fn quote_refuses_a_zero_amount_and_a_fee_of_one_hundred_percent() {
    assert_eq!(quote_swap(0, 500, 500, 30), Err(ErrorCode::InvalidInput));
    assert_eq!(quote_swap(100, 500, 500, 1000), Err(ErrorCode::InvalidInput));
    assert_eq!(quote_swap(100, 500, 500, FEE_SCALE), Err(ErrorCode::InvalidInput));
    assert_eq!(quote_swap(100, 500, 500, u64::MAX), Err(ErrorCode::InvalidInput));
    assert!(quote_swap(100, 500, 500, 999).is_ok());
}

#[test]
fn quote_refuses_an_empty_reserve() {
    assert_eq!(quote_swap(100, 0, 500, 30), Err(ErrorCode::DivisionByZero));
    assert_eq!(quote_swap(100, 500, 0, 30), Err(ErrorCode::DivisionByZero));
    assert_eq!(quote_swap(100, 0, 0, 30), Err(ErrorCode::DivisionByZero));
}

#[test]
fn quote_names_invalid_input_before_an_empty_reserve() {
    assert_eq!(quote_swap(0, 0, 500, 30), Err(ErrorCode::InvalidInput));
    assert_eq!(quote_swap(100, 500, 0, 1000), Err(ErrorCode::InvalidInput));
}

#[test]
fn quote_never_pays_out_the_whole_reserve() {
    for reserve_out in [1u64, 2, 7, 500, u64::MAX] {
        for reserve_in in [1u64, 3, 500, u64::MAX] {
            for amount_in in [1u64, 2, 1000, u64::MAX] {
                for fee_rate in [0u64, 30, 999] {
                    let (out, fee) =
                        quote_swap(amount_in, reserve_in, reserve_out, fee_rate).unwrap();
                    assert!(out < reserve_out);
                    assert!(fee < amount_in);
                }
            }
        }
    }
}

#[test]
fn quote_is_monotonic_in_the_amount_paid_in() {
    for fee_rate in [0u64, 1, 30, 333, 999] {
        let pools = [(1u64, 1u64), (500, 500), (7, 1000), (1000, 7), (123_456, 789)];
        for (reserve_in, reserve_out) in pools {
            let mut last = 0;
            for amount_in in 1..2000u64 {
                let (out, _) = quote_swap(amount_in, reserve_in, reserve_out, fee_rate).unwrap();
                assert!(out >= last);
                last = out;
            }
        }
    }
}
