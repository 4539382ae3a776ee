use amm_contract::context::Deposit;
use amm_contract::context::ErrorCode;
use amm_contract::context::InitializeConfig;
use amm_contract::context::InitializeConfigBumps;
use amm_contract::context::Withdraw;
use amm_contract::states::Config;
use amm_contract::states::PoolState;

#[test]
fn init_makes_an_empty_pool() {
    let ctx = InitializeConfig { mint_x: [1; 32], mint_y: [2; 32], mint_lp_decimals: 6 };
    let pool = ctx.init(30, Some([9; 32]), InitializeConfigBumps { config: 254, mint_lp: 253 });
    assert_eq!(
        pool,
        Ok(PoolState {
            config: Config {
                mint_x: [1; 32],
                mint_y: [2; 32],
                fees: 30,
                my_bump: 254,
                lp_bump: 253,
                authority: Some([9; 32]),
            },
            precision: 6,
            reserve_x: 0,
            reserve_y: 0,
            lp_supply: 0,
        })
    );
}

#[test]
fn init_without_authority() {
    let ctx = InitializeConfig { mint_x: [7; 32], mint_y: [8; 32], mint_lp_decimals: 9 };
    let pool = ctx.init(0, None, InitializeConfigBumps { config: 1, mint_lp: 2 }).unwrap();
    assert_eq!(pool.config.authority, None);
    assert_eq!(pool.config.fees, 0);
    assert_eq!(pool.config.mint_x, [7; 32]);
    assert_eq!(pool.config.mint_y, [8; 32]);
    assert_eq!(pool.config.my_bump, 1);
    assert_eq!(pool.config.lp_bump, 2);
    assert_eq!(pool.precision, 9);
    assert_eq!((pool.reserve_x, pool.reserve_y, pool.lp_supply), (0, 0, 0));
}

#[test]
fn init_takes_the_whole_amount_as_fee() {
    let ctx = InitializeConfig { mint_x: [1; 32], mint_y: [2; 32], mint_lp_decimals: 6 };
    let pool = ctx.init(10_000, None, InitializeConfigBumps { config: 1, mint_lp: 2 }).unwrap();
    assert_eq!(pool.config.fees, 10_000);
}

#[test]
fn init_refuses_a_fee_out_of_range() {
    let ctx = InitializeConfig { mint_x: [1; 32], mint_y: [2; 32], mint_lp_decimals: 6 };
    let bumps = InitializeConfigBumps { config: 1, mint_lp: 2 };
    assert_eq!(ctx.init(10_001, None, bumps), Err(ErrorCode::InvalidAmount));
    assert_eq!(ctx.init(u16::MAX, Some([9; 32]), bumps), Err(ErrorCode::InvalidAmount));
}

#[test]
fn init_takes_a_precision_whose_scale_does_not_fit_and_the_curve_is_refused() {
    let ctx = InitializeConfig { mint_x: [1; 32], mint_y: [2; 32], mint_lp_decimals: 39 };
    let pool = ctx.init(30, None, InitializeConfigBumps { config: 1, mint_lp: 2 }).unwrap();
    assert_eq!(pool.precision, 39);
    let mut deposit = Deposit { pool };
    assert!(deposit.deposit(100, 1_000, 1_000).is_ok());
    let funded = deposit.pool;
    assert_eq!(deposit.deposit(100, 1_000, 1_000), Err(ErrorCode::Overflow));
    assert_eq!(deposit.pool, funded);
    let mut withdraw = Withdraw { pool: funded, user_lp: 100 };
    assert_eq!(withdraw.withdraw(0, 0, 100), Err(ErrorCode::Overflow));
    assert_eq!(withdraw.pool, funded);
}

#[test]
fn init_with_ten_digits_makes_a_pool_that_works() {
    let ctx = InitializeConfig { mint_x: [1; 32], mint_y: [2; 32], mint_lp_decimals: 10 };
    let pool = ctx.init(30, None, InitializeConfigBumps { config: 1, mint_lp: 2 }).unwrap();
    let mut deposit = Deposit { pool };
    assert!(deposit.deposit(100, 1_000, 2_000).is_ok());
    assert!(deposit.deposit(10, 100, 200).is_ok());
    assert_eq!(deposit.pool.reserve_x, 1_100);
    assert_eq!(deposit.pool.reserve_y, 2_200);
    let mut withdraw = Withdraw { pool: deposit.pool, user_lp: 110 };
    assert!(withdraw.withdraw(1_100, 2_200, 110).is_ok());
    assert_eq!(withdraw.pool, pool);
}
