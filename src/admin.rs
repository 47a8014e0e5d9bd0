use vstd::prelude::*;

use crate::state::{GlobalConfig, Key, Market};

verus! {

/// The program-wide configuration as first set up by its administrator.
pub fn initialize(admin: Key, treasury: Key, fee_bps: u16, bump: u8) -> (r: GlobalConfig)
    ensures
        r.admin == admin,
        r.treasury == treasury,
        r.fee_bps == fee_bps,
        r.bump == bump,
{
    GlobalConfig { admin, fee_bps, treasury, bump }
}

pub fn update_treasury(config: &mut GlobalConfig, new_treasury: Key)
    ensures
        final(config).treasury == new_treasury,
        final(config).admin == old(config).admin,
        final(config).fee_bps == old(config).fee_bps,
        final(config).bump == old(config).bump,
{
    config.treasury = new_treasury;
}

pub fn update_admin(config: &mut GlobalConfig, new_admin: Key)
    ensures
        final(config).admin == new_admin,
        final(config).treasury == old(config).treasury,
        final(config).fee_bps == old(config).fee_bps,
        final(config).bump == old(config).bump,
{
    config.admin = new_admin;
}

pub fn update_fee_bps(config: &mut GlobalConfig, new_fee_bps: u16)
    ensures
        final(config).fee_bps == new_fee_bps,
        final(config).admin == old(config).admin,
        final(config).treasury == old(config).treasury,
        final(config).bump == old(config).bump,
{
    config.fee_bps = new_fee_bps;
}

/// A newly listed, active market priced by `price_feed`.
pub fn create_market(
    symbol: [u8; 16],
    price_feed: Key,
    decimals: u8,
    max_leverage: u8,
    admin: Key,
    now: i64,
    bump: u8,
) -> (r: Market)
    ensures
        r.symbol@ == symbol@,
        r.price_feed == price_feed,
        r.decimals == decimals,
        r.max_leverage == max_leverage,
        r.listed_by == admin,
        r.created_at == now,
        r.is_active,
        r.bump == bump,
{
    Market { symbol, price_feed, decimals, is_active: true, max_leverage, listed_by: admin, created_at: now, bump }
}

/// Replaces a market's symbol, scale, active flag and leverage cap; its feed
/// and listing stay.
pub fn update_market(market: &mut Market, symbol: [u8; 16], decimals: u8, is_active: bool, max_leverage: u8)
    ensures
        final(market).symbol@ == symbol@,
        final(market).decimals == decimals,
        final(market).is_active == is_active,
        final(market).max_leverage == max_leverage,
        final(market).price_feed == old(market).price_feed,
        final(market).listed_by == old(market).listed_by,
        final(market).created_at == old(market).created_at,
        final(market).bump == old(market).bump,
{
    market.symbol = symbol;
    market.decimals = decimals;
    market.is_active = is_active;
    market.max_leverage = max_leverage;
}

} // verus!
