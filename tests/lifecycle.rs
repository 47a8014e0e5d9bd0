use anchor_lang::prelude::Pubkey;
use anchor_lang::AccountSerialize;
use pyth_solana_receiver_sdk::price_update::{PriceFeedMessage, PriceUpdateV2, VerificationLevel};
use tdf_program::admin::{create_market, initialize, update_admin, update_fee_bps, update_market, update_treasury};
use tdf_program::errors::ErrorCode;
use tdf_program::league::{close_league, create_league, join_league, start_league};
use tdf_program::oracle::get_price_and_exponent_from_pyth;
use tdf_program::state::{Key, LeagueStatus};

fn to_key(p: &Pubkey) -> Key {
    let b = p.to_bytes();
    Key {
        hi: u128::from_be_bytes(b[..16].try_into().unwrap()),
        lo: u128::from_be_bytes(b[16..].try_into().unwrap()),
    }
}

fn to_pubkey(k: Key) -> Pubkey {
    let mut b = [0u8; 32];
    b[..16].copy_from_slice(&k.hi.to_be_bytes());
    b[16..].copy_from_slice(&k.lo.to_be_bytes());
    Pubkey::new_from_array(b)
}

fn vault_for(league: Key, mint: Key) -> Key {
    to_key(&anchor_spl::associated_token::get_associated_token_address(&to_pubkey(league), &to_pubkey(mint)))
}

fn make(markets: usize, start: i64, end: i64, k: u16, vault: Key) -> Result<(tdf_program::state::League, tdf_program::state::Leaderboard), ErrorCode> {
    let league = Key { hi: 1, lo: 2 };
    let mint = Key { hi: 3, lo: 4 };
    create_league(
        league,
        Key { hi: 5, lo: 6 },
        Key { hi: 7, lo: 8 },
        mint,
        vault,
        "weekly".to_string(),
        (0..markets).map(|i| Key { hi: 0, lo: i as u128 }).collect(),
        1_000,
        10_000_000_000,
        start,
        end,
        "uri".to_string(),
        50,
        20,
        k,
        1,
        2,
        123,
    )
}

#[test]
fn league_created_pending_with_empty_board() {
    let vault = vault_for(Key { hi: 1, lo: 2 }, Key { hi: 3, lo: 4 });
    assert_ne!(vault, Key { hi: 1, lo: 2 });
    let (league, board) = make(2, 10, 20, 3, vault).unwrap();
    assert_eq!(league.status, LeagueStatus::Pending);
    assert_eq!(league.id, "weekly");
    assert_eq!(league.markets.len(), 2);
    assert_eq!(league.reward_vault, vault);
    assert_eq!(league.virtual_on_deposit, 10_000_000_000);
    assert_eq!(board.k, 3);
    assert!(board.topk_equity.is_empty() && board.topk_volume.is_empty());
    assert_eq!(board.last_updated, 123);
    assert_eq!(board.league, Key { hi: 1, lo: 2 });
}

#[test]
fn league_creation_refusals() {
    let vault = vault_for(Key { hi: 1, lo: 2 }, Key { hi: 3, lo: 4 });
    assert_eq!(make(11, 10, 20, 3, vault).err(), Some(ErrorCode::InvalidMarketLength));
    assert_eq!(make(2, 20, 20, 3, vault).err(), Some(ErrorCode::InvalidTimeRange));
    assert_eq!(make(2, 10, 20, 11, vault).err(), Some(ErrorCode::InvalidKValue));
    assert_eq!(make(2, 10, 20, 3, Key { hi: 1, lo: 2 }).err(), Some(ErrorCode::InvalidRewardVault));
}

#[test]
fn league_start_join_close() {
    let vault = vault_for(Key { hi: 1, lo: 2 }, Key { hi: 3, lo: 4 });
    let (mut league, _) = make(2, 10, 20, 3, vault).unwrap();
    let creator = Key { hi: 5, lo: 6 };
    let other = Key { hi: 9, lo: 9 };
    assert_eq!(join_league(&league, Key { hi: 1, lo: 2 }, other, 0).err(), Some(ErrorCode::InvalidLeagueStatus));
    assert_eq!(start_league(&mut league, other, 5), Err(ErrorCode::NotLeagueCreator));
    assert_eq!(league.status, LeagueStatus::Pending);
    assert_eq!(start_league(&mut league, other, 10), Ok(()));
    assert_eq!(league.status, LeagueStatus::Active);
    assert_eq!(start_league(&mut league, creator, 11), Err(ErrorCode::InvalidLeagueStatus));
    let p = join_league(&league, Key { hi: 1, lo: 2 }, other, 4).unwrap();
    assert_eq!(p.virtual_balance, 10_000_000_000);
    assert_eq!(p.user, other);
    assert_eq!(p.topk_equity_index, 0xFFFF);
    assert!(p.positions.is_empty() && !p.claimed);
    assert_eq!(close_league(&mut league, other, vault, 500, 15), Err(ErrorCode::NotLeagueCreator));
    assert_eq!(close_league(&mut league, creator, other, 500, 15), Err(ErrorCode::InvalidRewardVault));
    assert_eq!(close_league(&mut league, creator, vault, 500, 15), Ok(()));
    assert_eq!(league.status, LeagueStatus::Closed);
    assert_eq!(league.total_reward_amount, 500);
    assert_eq!(close_league(&mut league, creator, vault, 1, 30), Err(ErrorCode::InvalidLeagueStatus));
}

#[test]
fn admin_settings() {
    let mut cfg = initialize(Key { hi: 1, lo: 0 }, Key { hi: 2, lo: 0 }, 1000, 7);
    assert_eq!((cfg.admin, cfg.treasury, cfg.fee_bps, cfg.bump), (Key { hi: 1, lo: 0 }, Key { hi: 2, lo: 0 }, 1000, 7));
    update_treasury(&mut cfg, Key { hi: 3, lo: 0 });
    update_admin(&mut cfg, Key { hi: 4, lo: 0 });
    update_fee_bps(&mut cfg, 250);
    assert_eq!((cfg.admin, cfg.treasury, cfg.fee_bps), (Key { hi: 4, lo: 0 }, Key { hi: 3, lo: 0 }, 250));
    let mut m = create_market(*b"SOL/USDC\0\0\0\0\0\0\0\0", Key { hi: 8, lo: 0 }, 8, 20, Key { hi: 4, lo: 0 }, 99, 1);
    assert!(m.is_active);
    assert_eq!((m.decimals, m.max_leverage, m.created_at), (8, 20, 99));
    update_market(&mut m, [1u8; 16], 6, false, 5);
    assert_eq!((m.symbol, m.decimals, m.is_active, m.max_leverage), ([1u8; 16], 6, false, 5));
    assert_eq!(m.price_feed, Key { hi: 8, lo: 0 });
}

fn price_account(feed: Key, price: i64, exponent: i32) -> Vec<u8> {
    let update = PriceUpdateV2 {
        write_authority: Pubkey::new_from_array([3u8; 32]),
        verification_level: VerificationLevel::Full,
        price_message: PriceFeedMessage {
            feed_id: to_pubkey(feed).to_bytes(),
            price,
            conf: 1,
            exponent,
            publish_time: 1,
            prev_publish_time: 0,
            ema_price: price,
            ema_conf: 1,
        },
        posted_slot: 5,
    };
    let mut data = Vec::new();
    update.try_serialize(&mut data).unwrap();
    data
}

#[test]
fn pyth_account_read_for_its_feed() {
    let feed = Key { hi: 77, lo: 88 };
    let data = price_account(feed, 14_250_000_000, -8);
    assert_eq!(get_price_and_exponent_from_pyth(&data, feed), Ok((14_250_000_000, -8)));
    assert_eq!(get_price_and_exponent_from_pyth(&data, Key { hi: 77, lo: 89 }), Err(ErrorCode::InvalidOraclePriceFeed));
    assert_eq!(get_price_and_exponent_from_pyth(&[1, 2, 3], feed), Err(ErrorCode::InvalidOraclePriceFeed));
    assert_eq!(get_price_and_exponent_from_pyth(&[0u8; 40], feed), Err(ErrorCode::InvalidOraclePriceFeed));
    assert_eq!(get_price_and_exponent_from_pyth(&data[..data.len() - 1], feed), Err(ErrorCode::InvalidOraclePriceFeed));
}
