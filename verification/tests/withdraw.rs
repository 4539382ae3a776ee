use amm_contract::context::Asset;
use amm_contract::context::Deposit;
use amm_contract::context::ErrorCode;
use amm_contract::context::LedgerInstruction;
use amm_contract::context::Withdraw;
use amm_contract::states::Config;
use amm_contract::states::PoolState;

fn pool_for_withdraw(reserve_x: u64, reserve_y: u64, lp_supply: u64) -> PoolState {
    PoolState {
        config: Config {
            mint_x: [1; 32],
            mint_y: [2; 32],
            fees: 0,
            my_bump: 255,
            lp_bump: 254,
            authority: Some([3; 32]),
        },
        precision: 6,
        reserve_x,
        reserve_y,
        lp_supply,
    }
}

/// The instructions of a withdrawal of `x` and `y` for `shares` retired
/// shares.
fn withdrawal_of(x: u64, y: u64, shares: u64) -> Vec<LedgerInstruction> {
    vec![
        LedgerInstruction::Burn { amount: shares },
        LedgerInstruction::Credit { asset: Asset::X, amount: x },
        LedgerInstruction::Credit { asset: Asset::Y, amount: y },
    ]
}

/// The instructions of a deposit of `x` and `y` for `shares` new shares.
fn deposit_for(x: u64, y: u64, shares: u64) -> Vec<LedgerInstruction> {
    vec![
        LedgerInstruction::Debit { asset: Asset::X, amount: x },
        LedgerInstruction::Debit { asset: Asset::Y, amount: y },
        LedgerInstruction::Mint { amount: shares },
    ]
}

/// The amounts of X and Y that the instructions of a deposit or of a
/// withdrawal move.
fn moved(issued: &[LedgerInstruction]) -> (u64, u64) {
    let mut x = 0;
    let mut y = 0;
    for instruction in issued {
        match *instruction {
            LedgerInstruction::Debit { asset: Asset::X, amount }
            | LedgerInstruction::Credit { asset: Asset::X, amount } => x += amount,
            LedgerInstruction::Debit { asset: Asset::Y, amount }
            | LedgerInstruction::Credit { asset: Asset::Y, amount } => y += amount,
            LedgerInstruction::Mint { .. } | LedgerInstruction::Burn { .. } => {}
        }
    }
    (x, y)
}

#[test]
fn withdraw_pays_the_share_rounded_down() {
    let mut ctx = Withdraw { pool: pool_for_withdraw(1_500, 3_000, 750), user_lp: 300 };
    assert_eq!(ctx.withdraw(0, 0, 250), Ok(withdrawal_of(499, 999, 250)));
    assert_eq!(ctx.pool, pool_for_withdraw(1_001, 2_001, 500));
    assert_eq!(ctx.user_lp, 50);
}

#[test]
fn withdraw_of_all_shares_empties_the_pool() {
    let mut ctx = Withdraw { pool: pool_for_withdraw(1_500, 3_000, 750), user_lp: 750 };
    assert_eq!(ctx.withdraw(1_500, 3_000, 750), Ok(withdrawal_of(1_500, 3_000, 750)));
    assert_eq!(ctx.pool, pool_for_withdraw(0, 0, 0));
    assert_eq!(ctx.user_lp, 0);
}

#[test]
fn withdraw_of_a_part_leaves_something_of_both_reserves() {
    let mut ctx = Withdraw { pool: pool_for_withdraw(1, 1, 1_000_000), user_lp: 999_999 };
    assert_eq!(ctx.withdraw(0, 0, 999_999), Ok(withdrawal_of(0, 0, 999_999)));
    assert_eq!(ctx.pool, pool_for_withdraw(1, 1, 1));
}

#[test]
fn withdraw_of_no_shares_is_invalid() {
    let before = pool_for_withdraw(1_500, 3_000, 750);
    let mut ctx = Withdraw { pool: before, user_lp: 300 };
    assert_eq!(ctx.withdraw(0, 0, 0), Err(ErrorCode::InvalidAmount));
    assert_eq!(ctx.pool, before);
    assert_eq!(ctx.user_lp, 300);
}

#[test]
fn withdraw_of_more_shares_than_there_are_is_invalid() {
    let before = pool_for_withdraw(1_500, 3_000, 750);
    let mut ctx = Withdraw { pool: before, user_lp: 1_000 };
    assert_eq!(ctx.withdraw(0, 0, 751), Err(ErrorCode::InvalidAmount));
    assert_eq!(ctx.pool, before);
    assert_eq!(ctx.user_lp, 1_000);
}

#[test]
fn withdraw_from_an_empty_pool_is_invalid() {
    let before = pool_for_withdraw(0, 0, 0);
    let mut ctx = Withdraw { pool: before, user_lp: 10 };
    assert_eq!(ctx.withdraw(0, 0, 1), Err(ErrorCode::InvalidAmount));
    assert_eq!(ctx.withdraw(5, 7, 1), Err(ErrorCode::InvalidAmount));
    assert_eq!(ctx.withdraw(0, 0, 0), Err(ErrorCode::InvalidAmount));
    assert_eq!(ctx.pool, before);
    assert_eq!(ctx.user_lp, 10);
}

#[test]
fn withdraw_of_more_shares_than_held_is_refused() {
    let before = pool_for_withdraw(1_500, 3_000, 750);
    let mut ctx = Withdraw { pool: before, user_lp: 249 };
    assert_eq!(ctx.withdraw(0, 0, 250), Err(ErrorCode::InsufficientShares));
    assert_eq!(ctx.pool, before);
    assert_eq!(ctx.user_lp, 249);
    assert_eq!(ctx.withdraw(0, 0, 249), Ok(withdrawal_of(498, 996, 249)));
}

#[test]
fn withdraw_below_a_floor_is_refused() {
    let before = pool_for_withdraw(1_500, 3_000, 750);
    let mut ctx = Withdraw { pool: before, user_lp: 300 };
    assert_eq!(ctx.withdraw(500, 0, 250), Err(ErrorCode::SlippageExceeded));
    assert_eq!(ctx.pool, before);
    assert_eq!(ctx.withdraw(0, 1_000, 250), Err(ErrorCode::SlippageExceeded));
    assert_eq!(ctx.pool, before);
    assert_eq!(ctx.user_lp, 300);
    assert_eq!(ctx.withdraw(499, 999, 250), Ok(withdrawal_of(499, 999, 250)));
}

#[test]
fn withdraw_with_a_precision_out_of_range_is_refused() {
    let mut before = pool_for_withdraw(1_500, 3_000, 750);
    before.precision = 39;
    let mut ctx = Withdraw { pool: before, user_lp: 300 };
    assert_eq!(ctx.withdraw(0, 0, 250), Err(ErrorCode::Overflow));
    assert_eq!(ctx.pool, before);
    assert_eq!(ctx.user_lp, 300);
}

#[test]
fn withdraw_with_ten_digits_of_precision() {
    let mut before = pool_for_withdraw(1_500, 3_000, 750);
    before.precision = 10;
    let mut ctx = Withdraw { pool: before, user_lp: 300 };
    assert_eq!(ctx.withdraw(0, 0, 250), Ok(withdrawal_of(499, 999, 250)));
    assert_eq!(ctx.user_lp, 50);
}

#[test]
fn withdraw_whose_product_leaves_128_bits_is_refused() {
    let mut before = pool_for_withdraw(u64::MAX, u64::MAX, 2);
    before.precision = 20;
    let mut ctx = Withdraw { pool: before, user_lp: 2 };
    assert_eq!(ctx.withdraw(0, 0, 1), Err(ErrorCode::Overflow));
    assert_eq!(ctx.pool, before);
    assert_eq!(ctx.user_lp, 2);
}

#[test]
fn withdraw_near_the_limits_does_not_wrap() {
    let mut ctx = Withdraw {
        pool: pool_for_withdraw(u64::MAX, u64::MAX, u64::MAX),
        user_lp: u64::MAX,
    };
    assert_eq!(
        ctx.withdraw(0, 0, u64::MAX - 1),
        Ok(withdrawal_of(18_446_725_626_965_477_905, 18_446_725_626_965_477_905, u64::MAX - 1))
    );
    assert_eq!(ctx.pool, pool_for_withdraw(18_446_744_073_710, 18_446_744_073_710, 1));
    assert_eq!(ctx.user_lp, 1);
}

#[test]
fn first_deposit_withdrawn_at_once_comes_back_whole() {
    let empty = pool_for_withdraw(0, 0, 0);
    let mut deposit = Deposit { pool: empty };
    assert_eq!(deposit.deposit(500, 1_000, 2_000), Ok(deposit_for(1_000, 2_000, 500)));
    let mut withdraw = Withdraw { pool: deposit.pool, user_lp: 500 };
    assert_eq!(withdraw.withdraw(1_000, 2_000, 500), Ok(withdrawal_of(1_000, 2_000, 500)));
    assert_eq!(withdraw.pool, empty);
}

#[test]
fn deposit_withdrawn_at_once_returns_no_more_than_it_cost() {
    let pools = [
        pool_for_withdraw(1_000, 2_000, 500),
        pool_for_withdraw(3, 3, 3),
        pool_for_withdraw(3_000_000, 5, 3),
        pool_for_withdraw(1_000_003, 999_983, 17),
        pool_for_withdraw(123_456_789, 987_654_321, 1_000),
    ];
    for before in pools {
        for amount in [1u64, 2, 7, 250, 1_000_000] {
            let mut deposit = Deposit { pool: before };
            let given = moved(&deposit.deposit(amount, u64::MAX, u64::MAX).unwrap());
            let mut withdraw = Withdraw { pool: deposit.pool, user_lp: amount };
            let taken = moved(&withdraw.withdraw(0, 0, amount).unwrap());
            assert!(taken.0 <= given.0);
            assert!(taken.1 <= given.1);
            assert!(withdraw.pool.reserve_x >= before.reserve_x);
            assert!(withdraw.pool.reserve_y >= before.reserve_y);
            assert_eq!(withdraw.pool.lp_supply, before.lp_supply);
        }
    }
}

#[test]
fn deposit_withdrawn_at_once_can_cost_more_than_one_unit() {
    let mut deposit = Deposit { pool: pool_for_withdraw(3_000_000, 3_000_000, 3) };
    assert_eq!(deposit.deposit(1, u64::MAX, u64::MAX), Ok(deposit_for(1_000_002, 1_000_002, 1)));
    let mut withdraw = Withdraw { pool: deposit.pool, user_lp: 1 };
    assert_eq!(withdraw.withdraw(0, 0, 1), Ok(withdrawal_of(1_000_000, 1_000_000, 1)));
    assert_eq!(withdraw.pool, pool_for_withdraw(3_000_002, 3_000_002, 3));
}

#[test]
fn withdraw_issues_the_burn_and_then_both_assets_out() {
    let mut ctx = Withdraw { pool: pool_for_withdraw(1_500, 3_000, 750), user_lp: 300 };
    let issued = ctx.withdraw(0, 0, 250).unwrap();
    assert_eq!(issued.len(), 3);
    assert_eq!(issued[0], LedgerInstruction::Burn { amount: 250 });
    assert_eq!(issued[1], LedgerInstruction::Credit { asset: Asset::X, amount: 499 });
    assert_eq!(issued[2], LedgerInstruction::Credit { asset: Asset::Y, amount: 999 });
}
