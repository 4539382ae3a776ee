use amm_contract::context::Asset;
use amm_contract::context::Deposit;
use amm_contract::context::ErrorCode;
use amm_contract::context::LedgerInstruction;
use amm_contract::states::Config;
use amm_contract::states::PoolState;

fn pool_for_deposit(reserve_x: u64, reserve_y: u64, lp_supply: u64) -> PoolState {
    PoolState {
        config: Config {
            mint_x: [1; 32],
            mint_y: [2; 32],
            fees: 30,
            my_bump: 255,
            lp_bump: 254,
            authority: None,
        },
        precision: 6,
        reserve_x,
        reserve_y,
        lp_supply,
    }
}

/// The instructions of a deposit of `x` and `y` for `shares` new shares.
fn deposit_of(x: u64, y: u64, shares: u64) -> Vec<LedgerInstruction> {
    vec![
        LedgerInstruction::Debit { asset: Asset::X, amount: x },
        LedgerInstruction::Debit { asset: Asset::Y, amount: y },
        LedgerInstruction::Mint { amount: shares },
    ]
}

#[test]
fn first_deposit_pays_the_ceilings_exactly() {
    let mut ctx = Deposit { pool: pool_for_deposit(0, 0, 0) };
    assert_eq!(ctx.deposit(500, 1_000, 2_000), Ok(deposit_of(1_000, 2_000, 500)));
    assert_eq!(ctx.pool.reserve_x, 1_000);
    assert_eq!(ctx.pool.reserve_y, 2_000);
    assert_eq!(ctx.pool.lp_supply, 500);
    assert_eq!(ctx.pool.config, pool_for_deposit(0, 0, 0).config);
    assert_eq!(ctx.pool.precision, 6);
}

#[test]
fn first_deposit_of_the_largest_amounts() {
    let mut ctx = Deposit { pool: pool_for_deposit(0, 0, 0) };
    assert_eq!(
        ctx.deposit(u64::MAX, u64::MAX, u64::MAX),
        Ok(deposit_of(u64::MAX, u64::MAX, u64::MAX))
    );
    assert_eq!(ctx.pool, pool_for_deposit(u64::MAX, u64::MAX, u64::MAX));
}

#[test]
fn first_deposit_does_not_ask_the_curve() {
    let mut pool = pool_for_deposit(0, 0, 0);
    pool.precision = 40;
    let mut ctx = Deposit { pool };
    assert_eq!(ctx.deposit(1, 10, 20), Ok(deposit_of(10, 20, 1)));
}

#[test]
fn later_deposit_pays_in_proportion() {
    let mut ctx = Deposit { pool: pool_for_deposit(1_000, 2_000, 500) };
    assert_eq!(ctx.deposit(250, 500, 1_000), Ok(deposit_of(500, 1_000, 250)));
    assert_eq!(ctx.pool, pool_for_deposit(1_500, 3_000, 750));
}

#[test]
fn later_deposit_rounds_up() {
    let mut ctx = Deposit { pool: pool_for_deposit(3_000_000, 3, 3) };
    assert_eq!(ctx.deposit(1, u64::MAX, u64::MAX), Ok(deposit_of(1_000_002, 2, 1)));
    assert_eq!(ctx.pool, pool_for_deposit(4_000_002, 5, 4));
}

#[test]
fn deposit_issues_both_assets_in_and_then_the_shares() {
    let mut ctx = Deposit { pool: pool_for_deposit(1_000, 2_000, 500) };
    let issued = ctx.deposit(250, 500, 1_000).unwrap();
    assert_eq!(issued.len(), 3);
    assert_eq!(issued[0], LedgerInstruction::Debit { asset: Asset::X, amount: 500 });
    assert_eq!(issued[1], LedgerInstruction::Debit { asset: Asset::Y, amount: 1_000 });
    assert_eq!(issued[2], LedgerInstruction::Mint { amount: 250 });
}

#[test]
fn deposit_token_is_a_debit_of_the_asset() {
    let ctx = Deposit { pool: pool_for_deposit(1_000, 2_000, 500) };
    assert_eq!(
        ctx.deposit_token(7, true),
        LedgerInstruction::Debit { asset: Asset::X, amount: 7 }
    );
    assert_eq!(
        ctx.deposit_token(9, false),
        LedgerInstruction::Debit { asset: Asset::Y, amount: 9 }
    );
}

#[test]
fn mint_lp_token_is_a_mint() {
    let ctx = Deposit { pool: pool_for_deposit(1_000, 2_000, 500) };
    assert_eq!(ctx.mint_lp_token(11), LedgerInstruction::Mint { amount: 11 });
}

#[test]
fn deposit_for_no_shares_is_invalid() {
    let before = pool_for_deposit(1_000, 2_000, 500);
    let mut ctx = Deposit { pool: before };
    assert_eq!(ctx.deposit(0, 1_000, 2_000), Err(ErrorCode::InvalidAmount));
    assert_eq!(ctx.pool, before);
    let mut empty = Deposit { pool: pool_for_deposit(0, 0, 0) };
    assert_eq!(empty.deposit(0, 1_000, 2_000), Err(ErrorCode::InvalidAmount));
    assert_eq!(empty.pool, pool_for_deposit(0, 0, 0));
}

#[test]
fn deposit_above_a_ceiling_is_refused() {
    let before = pool_for_deposit(1_000, 2_000, 500);
    let mut ctx = Deposit { pool: before };
    assert_eq!(ctx.deposit(250, 499, 1_000), Err(ErrorCode::SlippageExceeded));
    assert_eq!(ctx.pool, before);
    assert_eq!(ctx.deposit(250, 500, 999), Err(ErrorCode::SlippageExceeded));
    assert_eq!(ctx.pool, before);
    assert_eq!(ctx.deposit(250, 500, 1_000), Ok(deposit_of(500, 1_000, 250)));
}

#[test]
fn deposit_that_would_overflow_a_reserve_is_refused() {
    let before = pool_for_deposit(u64::MAX - 10, 100, 100);
    let mut ctx = Deposit { pool: before };
    assert_eq!(ctx.deposit(100, u64::MAX, u64::MAX), Err(ErrorCode::Overflow));
    assert_eq!(ctx.pool, before);
    let before = pool_for_deposit(100, u64::MAX - 10, 100);
    let mut ctx = Deposit { pool: before };
    assert_eq!(ctx.deposit(100, u64::MAX, u64::MAX), Err(ErrorCode::Overflow));
    assert_eq!(ctx.pool, before);
}

#[test]
fn deposit_that_would_overflow_the_share_supply_is_refused() {
    let before = pool_for_deposit(0, 5, u64::MAX);
    let mut ctx = Deposit { pool: before };
    assert_eq!(ctx.deposit(1, u64::MAX, u64::MAX), Err(ErrorCode::Overflow));
    assert_eq!(ctx.pool, before);
}

#[test]
fn deposit_whose_amounts_leave_64_bits_is_refused() {
    let mut before = pool_for_deposit(u64::MAX, 5, 1);
    before.precision = 0;
    let mut ctx = Deposit { pool: before };
    assert_eq!(ctx.deposit(2, u64::MAX, u64::MAX), Err(ErrorCode::Overflow));
    assert_eq!(ctx.pool, before);
}

#[test]
fn deposit_with_a_precision_out_of_range_is_refused() {
    let mut before = pool_for_deposit(1_000, 2_000, 500);
    before.precision = 39;
    let mut ctx = Deposit { pool: before };
    assert_eq!(ctx.deposit(250, 500, 1_000), Err(ErrorCode::Overflow));
    assert_eq!(ctx.pool, before);
}

#[test]
fn deposit_with_ten_digits_of_precision() {
    let mut before = pool_for_deposit(1_000, 2_000, 100);
    before.precision = 10;
    let mut ctx = Deposit { pool: before };
    assert_eq!(ctx.deposit(10, 100, 200), Ok(deposit_of(100, 200, 10)));
    assert_eq!(ctx.pool.reserve_x, 1_100);
    assert_eq!(ctx.pool.reserve_y, 2_200);
    assert_eq!(ctx.pool.lp_supply, 110);
}

#[test]
fn deposit_into_reserves_without_shares_is_refused() {
    // X is held, but no share is outstanding: not a first deposit, and the
    // curve has nothing to divide by.
    let before = pool_for_deposit(10, 0, 0);
    let mut ctx = Deposit { pool: before };
    assert_eq!(ctx.deposit(5, 100, 100), Err(ErrorCode::Overflow));
    assert_eq!(ctx.pool, before);
}
