use vstd::prelude::*;

use anchor_lang::prelude::Pubkey;

use crate::errors::ErrorCode;
use crate::state::{Key, Leaderboard, League, LeagueStatus, Participant};

verus! {

/// Most markets a league may list, and most ranks a leaderboard may hold.
pub const MAX_LEAGUE_MARKETS: usize = 10;

pub const MAX_TOP_K: u16 = 10;

/// Rank index of a participant that no list holds.
pub const UNRANKED: u16 = 0xFFFF;

/// The associated token account of `wallet` for the token `mint`.
pub uninterp spec fn associated_token_address_of(wallet: Key, mint: Key) -> Key;

/// Relies on anchor_spl's `associated_token::get_associated_token_address`:
/// the address that the associated-token program derives for the wallet and
/// mint, which depends on those two alone.
#[verifier::external_body]
fn associated_token_address(wallet: Key, mint: Key) -> (r: Key)
    ensures
        r == associated_token_address_of(wallet, mint),
{
    let mut w = [0u8; 32];
    w[..16].copy_from_slice(&wallet.hi.to_be_bytes());
    w[16..].copy_from_slice(&wallet.lo.to_be_bytes());
    let mut m = [0u8; 32];
    m[..16].copy_from_slice(&mint.hi.to_be_bytes());
    m[16..].copy_from_slice(&mint.lo.to_be_bytes());
    let a = anchor_spl::associated_token::get_associated_token_address(
        &Pubkey::new_from_array(w),
        &Pubkey::new_from_array(m),
    ).to_bytes();
    Key { hi: u128::from_be_bytes(a[..16].try_into().unwrap()), lo: u128::from_be_bytes(a[16..].try_into().unwrap()) }
}

/// Why a league cannot be created, checked in this order.
pub open spec fn create_league_error(
    league_key: Key,
    entry_token_mint: Key,
    reward_vault: Key,
    n_markets: nat,
    start_ts: i64,
    end_ts: i64,
    k: u16,
) -> Option<ErrorCode> {
    if n_markets > MAX_LEAGUE_MARKETS {
        Some(ErrorCode::InvalidMarketLength)
    } else if start_ts >= end_ts {
        Some(ErrorCode::InvalidTimeRange)
    } else if k > MAX_TOP_K {
        Some(ErrorCode::InvalidKValue)
    } else if reward_vault != associated_token_address_of(league_key, entry_token_mint) {
        Some(ErrorCode::InvalidRewardVault)
    } else {
        None
    }
}

/// A pending league and its empty leaderboard. The reward vault must be the
/// league's associated token account for the entry token.
pub fn create_league(
    league_key: Key,
    creator: Key,
    leaderboard_key: Key,
    entry_token_mint: Key,
    reward_vault: Key,
    id: String,
    markets: Vec<Key>,
    entry_amount: i64,
    virtual_on_deposit: i64,
    start_ts: i64,
    end_ts: i64,
    metadata_uri: String,
    max_participants: u32,
    max_leverage: u8,
    k: u16,
    league_bump: u8,
    leaderboard_bump: u8,
    now: i64,
) -> (r: Result<(League, Leaderboard), ErrorCode>)
    ensures
        create_league_error(league_key, entry_token_mint, reward_vault, markets@.len(), start_ts, end_ts, k) matches Some(e)
            ==> r == Err::<(League, Leaderboard), ErrorCode>(e),
        create_league_error(league_key, entry_token_mint, reward_vault, markets@.len(), start_ts, end_ts, k) is None
            ==> (r matches Ok((league, board)) && {
            &&& league.id@ == id@
            &&& league.creator == creator
            &&& league.status == LeagueStatus::Pending
            &&& league.markets@ == markets@
            &&& league.leaderboard == leaderboard_key
            &&& league.entry_token_mint == entry_token_mint
            &&& league.entry_amount == entry_amount
            &&& league.reward_vault == reward_vault
            &&& league.total_reward_amount == 0
            &&& league.virtual_on_deposit == virtual_on_deposit
            &&& league.metadata_uri@ == metadata_uri@
            &&& league.start_ts == start_ts
            &&& league.end_ts == end_ts
            &&& league.max_participants == max_participants
            &&& league.max_leverage == max_leverage
            &&& league.bump == league_bump
            &&& board.league == league_key
            &&& board.k == k
            &&& board.topk_equity@.len() == 0
            &&& board.topk_equity_scores@.len() == 0
            &&& board.topk_volume@.len() == 0
            &&& board.topk_volume_scores@.len() == 0
            &&& board.last_updated == now
            &&& board.bump == leaderboard_bump
        }),
{
    if markets.len() > MAX_LEAGUE_MARKETS {
        return Err(ErrorCode::InvalidMarketLength);
    }
    if start_ts >= end_ts {
        return Err(ErrorCode::InvalidTimeRange);
    }
    if k > MAX_TOP_K {
        return Err(ErrorCode::InvalidKValue);
    }
    if reward_vault != associated_token_address(league_key, entry_token_mint) {
        return Err(ErrorCode::InvalidRewardVault);
    }
    let league = League {
        id,
        creator,
        status: LeagueStatus::Pending,
        markets,
        leaderboard: leaderboard_key,
        entry_token_mint,
        entry_amount,
        reward_vault,
        total_reward_amount: 0,
        virtual_on_deposit,
        metadata_uri,
        start_ts,
        end_ts,
        max_participants,
        max_leverage,
        bump: league_bump,
    };
    let board = Leaderboard {
        league: league_key,
        k,
        topk_equity: Vec::new(),
        topk_equity_scores: Vec::new(),
        topk_volume: Vec::new(),
        topk_volume_scores: Vec::new(),
        last_updated: now,
        bump: leaderboard_bump,
    };
    Ok((league, board))
}

/// Moves a pending league to active. Before its start time only the creator
/// may do so; from then on anyone may.
pub fn start_league(league: &mut League, user: Key, now: i64) -> (r: Result<(), ErrorCode>)
    ensures
        old(league).status != LeagueStatus::Pending ==> r == Err::<(), ErrorCode>(ErrorCode::InvalidLeagueStatus)
            && *final(league) == *old(league),
        old(league).status == LeagueStatus::Pending && now < old(league).start_ts && user != old(league).creator
            ==> r == Err::<(), ErrorCode>(ErrorCode::NotLeagueCreator) && *final(league) == *old(league),
        old(league).status == LeagueStatus::Pending && (now >= old(league).start_ts || user == old(league).creator)
            ==> r is Ok && *final(league) == (League { status: LeagueStatus::Active, ..*old(league) }),
{
    if league.status != LeagueStatus::Pending {
        return Err(ErrorCode::InvalidLeagueStatus);
    }
    if now < league.start_ts && user != league.creator {
        return Err(ErrorCode::NotLeagueCreator);
    }
    league.status = LeagueStatus::Active;
    Ok(())
}

/// Moves an active league to closed and fixes its reward pool at what the
/// reward vault holds. Before its end time only the creator may do so.
pub fn close_league(
    league: &mut League,
    user: Key,
    reward_vault: Key,
    reward_vault_amount: u64,
    now: i64,
) -> (r: Result<(), ErrorCode>)
    ensures
        old(league).status != LeagueStatus::Active ==> r == Err::<(), ErrorCode>(ErrorCode::InvalidLeagueStatus)
            && *final(league) == *old(league),
        old(league).status == LeagueStatus::Active && now < old(league).end_ts && user != old(league).creator
            ==> r == Err::<(), ErrorCode>(ErrorCode::NotLeagueCreator) && *final(league) == *old(league),
        old(league).status == LeagueStatus::Active && (now >= old(league).end_ts || user == old(league).creator)
            && reward_vault != old(league).reward_vault ==> r == Err::<(), ErrorCode>(ErrorCode::InvalidRewardVault)
            && *final(league) == *old(league),
        old(league).status == LeagueStatus::Active && (now >= old(league).end_ts || user == old(league).creator)
            && reward_vault == old(league).reward_vault ==> r is Ok && *final(league) == (League {
            status: LeagueStatus::Closed,
            total_reward_amount: reward_vault_amount,
            ..*old(league)
        }),
{
    if league.status != LeagueStatus::Active {
        return Err(ErrorCode::InvalidLeagueStatus);
    }
    if now < league.end_ts && user != league.creator {
        return Err(ErrorCode::NotLeagueCreator);
    }
    if reward_vault != league.reward_vault {
        return Err(ErrorCode::InvalidRewardVault);
    }
    league.total_reward_amount = reward_vault_amount;
    league.status = LeagueStatus::Closed;
    Ok(())
}

/// The participant record of `user` on joining an active league: the league's
/// deposit as virtual balance, nothing open, unranked.
pub fn join_league(league: &League, league_key: Key, user: Key, bump: u8) -> (r: Result<Participant, ErrorCode>)
    ensures
        league.status != LeagueStatus::Active ==> r == Err::<Participant, ErrorCode>(ErrorCode::InvalidLeagueStatus),
        league.status == LeagueStatus::Active ==> (r matches Ok(p) && {
            &&& p.league == league_key
            &&& p.user == user
            &&& !p.claimed
            &&& p.virtual_balance == league.virtual_on_deposit
            &&& p.unrealized_pnl == 0
            &&& p.used_margin == 0
            &&& p.total_volume == 0
            &&& p.topk_equity_index == UNRANKED
            &&& p.topk_volume_index == UNRANKED
            &&& p.current_position_seq == 0
            &&& p.positions@.len() == 0
            &&& p.bump == bump
        }),
{
    if league.status != LeagueStatus::Active {
        return Err(ErrorCode::InvalidLeagueStatus);
    }
    Ok(Participant {
        league: league_key,
        user,
        claimed: false,
        virtual_balance: league.virtual_on_deposit,
        unrealized_pnl: 0,
        used_margin: 0,
        total_volume: 0,
        topk_equity_index: UNRANKED,
        topk_volume_index: UNRANKED,
        current_position_seq: 0,
        positions: Vec::new(),
        bump,
    })
}

} // verus!
