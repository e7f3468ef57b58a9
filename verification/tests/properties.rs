use amm_contract::{
    add_liquidity, distribute_fees, initialize, pause_contract, remove_liquidity, swap, Amm,
    ErrorCode,
};

const CAROL: [u8; 32] = [1; 32];

struct Sequence {
    state: u64,
}

impl Sequence {
    fn next(&mut self, bound: u64) -> u64 {
        self.state = self.state.wrapping_mul(6364136223846793005).wrapping_add(1442695040888963407);
        (self.state >> 33) % bound
    }
}

fn empty_or_funded(amm: &Amm) -> bool {
    (amm.total_shares == 0) == (amm.token_a_reserve == 0 && amm.token_b_reserve == 0)
        && (amm.token_a_reserve == 0) == (amm.token_b_reserve == 0)
        && amm.fee < 1000
}

#[test]
fn scenario_deposit_trade_withdraw() {
    let mut amm = initialize(30).unwrap();
    add_liquidity(&mut amm, CAROL, 500, 500).unwrap();
    assert_eq!(amm.token_a_reserve, 500);
    assert_eq!(amm.token_b_reserve, 500);
    assert_eq!(amm.total_shares, 1000);

    let trade = swap(&mut amm, CAROL, 100, true, 0).unwrap();
    assert_eq!(trade.amount_out, 81);
    assert_eq!(amm.token_a_reserve, 597);
    assert_eq!(amm.token_b_reserve, 419);
    assert_eq!(amm.accumulated_fees_b, 3);

    let withdrawal = remove_liquidity(&mut amm, CAROL, 500).unwrap();
    assert_eq!(withdrawal.amount_a, 298);
    assert_eq!(withdrawal.amount_b, 209);
    assert_eq!(amm.total_shares, 500);
}

#[test]
fn scenario_fee_payout_twice() {
    let mut amm = initialize(30).unwrap();
    add_liquidity(&mut amm, CAROL, 500, 500).unwrap();
    amm.accumulated_fees_a = 10;
    amm.accumulated_fees_b = 7;
    let first = distribute_fees(&mut amm, CAROL, true);
    assert_eq!((first.amount_a, first.amount_b), (10, 7));
    assert_eq!((amm.accumulated_fees_a, amm.accumulated_fees_b), (0, 0));
    let second = distribute_fees(&mut amm, CAROL, true);
    assert_eq!((second.amount_a, second.amount_b), (0, 0));
    assert_eq!((amm.token_a_reserve, amm.token_b_reserve, amm.total_shares), (500, 500, 1000));
}

#[test]
fn deposit_withdrawn_again_returns_no_more_than_was_put_in() {
    let mut sequence = Sequence { state: 11 };
    for _ in 0..2000 {
        let mut amm = initialize(sequence.next(1000)).unwrap();
        let (first_a, first_b) = (1 + sequence.next(10_000), 1 + sequence.next(10_000));
        add_liquidity(&mut amm, CAROL, first_a, first_b).unwrap();
        if sequence.next(2) == 0 {
            let _ = swap(&mut amm, CAROL, 1 + sequence.next(5_000), sequence.next(2) == 0, 0);
        }
        let amount_a = 1 + sequence.next(10_000);
        let amount_b = 1 + sequence.next(10_000);
        let deposit = add_liquidity(&mut amm, CAROL, amount_a, amount_b).unwrap();
        if deposit.shares == 0 {
            assert_eq!(remove_liquidity(&mut amm, CAROL, 0), Err(ErrorCode::InvalidInput));
            continue;
        }
        let withdrawal = remove_liquidity(&mut amm, CAROL, deposit.shares).unwrap();
        assert!(withdrawal.amount_a <= amount_a);
        assert!(withdrawal.amount_b <= amount_b);
    }
}

#[test]
fn first_deposit_withdrawn_again_comes_back_in_full() {
    let deposits = [(1u64, 1u64), (500, 500), (3, 1_000_000), (u64::MAX / 2, u64::MAX / 2)];
    for (amount_a, amount_b) in deposits {
        let mut amm = initialize(30).unwrap();
        let deposit = add_liquidity(&mut amm, CAROL, amount_a, amount_b).unwrap();
        let withdrawal = remove_liquidity(&mut amm, CAROL, deposit.shares).unwrap();
        assert_eq!(withdrawal.amount_a, amount_a);
        assert_eq!(withdrawal.amount_b, amount_b);
        assert_eq!(amm, initialize(30).unwrap());
    }
}

#[test]
fn trade_never_shrinks_the_product_of_the_reserves() {
    let mut sequence = Sequence { state: 5 };
    for _ in 0..2000 {
        let mut amm = initialize(sequence.next(1000)).unwrap();
        let (first_a, first_b) = (1 + sequence.next(1 << 40), 1 + sequence.next(1 << 40));
        add_liquidity(&mut amm, CAROL, first_a, first_b).unwrap();
        for _ in 0..5 {
            let before = amm.token_a_reserve as u128 * amm.token_b_reserve as u128;
            let _ = swap(&mut amm, CAROL, sequence.next(1 << 41), sequence.next(2) == 0, 0);
            let after = amm.token_a_reserve as u128 * amm.token_b_reserve as u128;
            assert!(after >= before);
        }
    }
}

#[test]
fn pool_stays_empty_or_funded_through_any_sequence_of_operations() {
    let mut sequence = Sequence { state: 3 };
    for _ in 0..200 {
        let mut amm = initialize(sequence.next(1000)).unwrap();
        assert!(empty_or_funded(&amm));
        for _ in 0..100 {
            let before = amm;
            let (x, y, flag) = (sequence.next(1000), sequence.next(1000), sequence.next(2) == 0);
            let refused = match sequence.next(5) {
                0 => add_liquidity(&mut amm, CAROL, x, y).is_err(),
                1 => swap(&mut amm, CAROL, x, flag, y % 3).is_err(),
                2 => {
                    let shares = if flag { amm.total_shares } else { x + y };
                    remove_liquidity(&mut amm, CAROL, shares).is_err()
                },
                3 => {
                    distribute_fees(&mut amm, CAROL, true);
                    false
                },
                _ => {
                    pause_contract(&mut amm, true, sequence.next(2) == 0);
                    false
                },
            };
            if refused {
                assert_eq!(amm, before);
            }
            assert!(empty_or_funded(&amm));
            assert!(amm.is_well_formed());
        }
    }
}

#[test]
fn paused_pool_refuses_every_trade_and_stays_as_it_is() {
    let mut sequence = Sequence { state: 17 };
    let mut amm = initialize(30).unwrap();
    add_liquidity(&mut amm, CAROL, 500, 500).unwrap();
    pause_contract(&mut amm, true, true);
    let before = amm;
    for _ in 0..500 {
        let (amount_in, floor) = (sequence.next(2000), sequence.next(100));
        let result = swap(&mut amm, CAROL, amount_in, sequence.next(2) == 0, floor);
        assert_eq!(result, Err(ErrorCode::ContractPaused));
        assert_eq!(amm, before);
    }
}
