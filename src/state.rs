use vstd::prelude::*;

verus! {

/// Most positions a participant may hold open at once.
pub const MAX_OPEN_POSITIONS: usize = 10;

/// Fixed-point scale of every price and notional: values carry this many
/// decimal digits.
pub const QUOTE_DECIMALS: i32 = 6;

/// A 32-byte account identity, held as its first and last 16 bytes read
/// big-endian.
#[derive(Clone, Copy, Debug, PartialEq, Eq, Structural, Hash, Default)]
pub struct Key {
    pub hi: u128,
    pub lo: u128,
}

#[derive(Clone, Copy, Debug, PartialEq, Eq, Structural)]
pub enum Direction {
    Long,
    Short,
}

#[derive(Clone, Copy, Debug, PartialEq, Eq, Structural)]
pub enum LeagueStatus {
    Pending,
    Active,
    Closed,
}

#[derive(Clone, Debug)]
pub struct Counter {
    pub count: u64,
}

#[derive(Clone, Debug)]
pub struct GlobalConfig {
    pub admin: Key,
    pub fee_bps: u16,
    pub treasury: Key,
    pub bump: u8,
}

#[derive(Clone, Debug)]
pub struct Market {
    pub symbol: [u8; 16],
    pub price_feed: Key,
    pub decimals: u8,
    pub is_active: bool,
    pub max_leverage: u8,
    pub listed_by: Key,
    pub created_at: i64,
    pub bump: u8,
}

#[derive(Clone, Debug)]
pub struct League {
    pub id: String,
    pub creator: Key,
    pub status: LeagueStatus,
    pub markets: Vec<Key>,
    pub leaderboard: Key,
    pub entry_token_mint: Key,
    pub entry_amount: i64,
    pub reward_vault: Key,
    pub total_reward_amount: u64,
    pub virtual_on_deposit: i64,
    pub metadata_uri: String,
    pub start_ts: i64,
    pub end_ts: i64,
    pub max_participants: u32,
    pub max_leverage: u8,
    pub bump: u8,
}

/// Two ranked lists of at most `k` entries each, kept as parallel key and
/// score vectors.
#[derive(Clone, Debug)]
pub struct Leaderboard {
    pub league: Key,
    pub k: u16,
    pub topk_equity: Vec<Key>,
    pub topk_equity_scores: Vec<i64>,
    pub topk_volume: Vec<Key>,
    pub topk_volume_scores: Vec<i64>,
    pub last_updated: i64,
    pub bump: u8,
}

#[derive(Clone, Debug)]
pub struct Participant {
    pub league: Key,
    pub user: Key,
    pub claimed: bool,
    pub virtual_balance: i64,
    pub unrealized_pnl: i64,
    pub used_margin: i64,
    pub total_volume: i64,
    pub topk_equity_index: u16,
    pub topk_volume_index: u16,
    pub current_position_seq: u64,
    pub positions: Vec<Key>,
    pub bump: u8,
}

/// `virtual_balance + unrealized_pnl`, exactly.
pub open spec fn equity_of(p: Participant) -> int {
    p.virtual_balance + p.unrealized_pnl
}

/// Equity less the margin that open positions lock.
pub open spec fn available_of(p: Participant) -> int {
    equity_of(p) - p.used_margin
}

impl Participant {
    pub fn equity(&self) -> (r: i64)
        requires
            i64::MIN <= equity_of(*self) <= i64::MAX,
        ensures
            r == equity_of(*self),
    {
        self.virtual_balance + self.unrealized_pnl
    }

    pub fn available_balance(&self) -> (r: i64)
        requires
            i64::MIN <= equity_of(*self) <= i64::MAX,
            i64::MIN <= available_of(*self) <= i64::MAX,
        ensures
            r == available_of(*self),
    {
        self.equity() - self.used_margin
    }
}

#[derive(Clone, Copy, Debug, PartialEq, Eq, Structural)]
pub struct Position {
    pub league: Key,
    pub user: Key,
    pub market: Key,
    pub market_decimals: u8,
    pub price_feed: Key,
    pub seq_num: u64,
    pub direction: Direction,
    pub entry_price: i64,
    pub entry_size: i64,
    pub leverage: u8,
    pub size: i64,
    pub notional: i64,
    pub unrealized_pnl: i64,
    pub opened_at: i64,
    pub closed_at: i64,
    pub closed_size: i64,
    pub closed_price: i64,
    pub closed_equity: i64,
    pub closed_pnl: i64,
    pub bump: u8,
}

} // verus!
