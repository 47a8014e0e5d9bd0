use vstd::prelude::*;

use crate::errors::ErrorCode;
use crate::math::{
    average_price, calculate_notional, calculate_price_from_notional_and_size, calculate_unrealized_pnl,
    dir_sign, fits_i64, locked_margin, locked_margin_of, notional_value, pnl_value, required_margin,
    required_margin_of, scale_price, scaled_price, sign_of,
};
use crate::state::{
    available_of, Direction, Key, League, LeagueStatus, Market, Participant, Position,
    MAX_OPEN_POSITIONS,
};

verus! {

/// A freshly provisioned position slot: identities filled in, nothing opened.
pub open spec fn unopened_position(
    league: Key,
    user: Key,
    market: Key,
    market_decimals: u8,
    price_feed: Key,
    seq_num: u64,
    bump: u8,
) -> Position {
    Position {
        league,
        user,
        market,
        market_decimals,
        price_feed,
        seq_num,
        direction: Direction::Long,
        entry_price: 0,
        entry_size: 0,
        leverage: 0,
        size: 0,
        notional: 0,
        unrealized_pnl: 0,
        opened_at: 0,
        closed_at: 0,
        closed_size: 0,
        closed_price: 0,
        closed_equity: 0,
        closed_pnl: 0,
        bump,
    }
}

pub fn init_unopened_position(
    league: Key,
    user: Key,
    market: Key,
    market_decimals: u8,
    price_feed: Key,
    current_position_seq: u64,
    bump: u8,
) -> (r: Position)
    ensures
        r == unopened_position(league, user, market, market_decimals, price_feed, current_position_seq, bump),
{
    Position {
        league,
        user,
        market,
        market_decimals,
        price_feed,
        seq_num: current_position_seq,
        direction: Direction::Long,
        entry_price: 0,
        entry_size: 0,
        leverage: 0,
        size: 0,
        notional: 0,
        unrealized_pnl: 0,
        opened_at: 0,
        closed_at: 0,
        closed_size: 0,
        closed_price: 0,
        closed_equity: 0,
        closed_pnl: 0,
        bump,
    }
}

/// Why opening is refused, checked in this order; `None` when it goes through.
pub open spec fn open_error(
    league: League,
    market: Market,
    participant: Participant,
    position: Position,
    price_feed: Key,
    price: i64,
    exponent: i32,
    size: i64,
    leverage: u8,
) -> Option<ErrorCode> {
    let entry = scaled_price(price as int, exponent as int);
    let notional = notional_value(entry, size as int, market.decimals);
    let margin = required_margin_of(notional, leverage as int);
    if league.status != LeagueStatus::Active {
        Some(ErrorCode::InvalidLeagueStatus)
    } else if leverage == 0 || leverage > league.max_leverage || leverage > market.max_leverage {
        Some(ErrorCode::InvalidLeverage)
    } else if market.price_feed != price_feed {
        Some(ErrorCode::OracleMismatch)
    } else if participant.positions@.len() >= MAX_OPEN_POSITIONS {
        Some(ErrorCode::MaxOpenPositionExceeded)
    } else if position.opened_at != 0 {
        Some(ErrorCode::PositionAlreadyOpened)
    } else if !fits_i64(entry) || market.decimals > 38 || !fits_i64(notional) {
        Some(ErrorCode::MathOverflow)
    } else if available_of(participant) < margin {
        Some(ErrorCode::InsufficientBalance)
    } else if !fits_i64(participant.total_volume + notional) || !fits_i64(participant.used_margin + margin)
        || participant.current_position_seq == u64::MAX {
        Some(ErrorCode::MathOverflow)
    } else {
        None
    }
}

/// Opens `position` at the reading `(price, exponent)` of `price_feed`.
/// The entry price is the reading at the library's scale, the notional is
/// `floor(entry * size / 10^decimals)`, and `ceil(notional / leverage)` of
/// margin is locked. On success the participant's volume grows by the notional,
/// its used margin by the locked margin, its sequence by one, and the position
/// joins its open set; on refusal nothing changes.
pub fn open_position(
    league: &League,
    market: &Market,
    participant: &mut Participant,
    position: &mut Position,
    position_key: Key,
    price_feed: Key,
    price: i64,
    exponent: i32,
    direction: Direction,
    size: i64,
    leverage: u8,
    now: i64,
) -> (r: Result<(), ErrorCode>)
    ensures
        match open_error(*league, *market, *old(participant), *old(position), price_feed, price, exponent, size, leverage) {
            Some(e) => r == Err::<(), ErrorCode>(e) && *final(participant) == *old(participant)
                && *final(position) == *old(position),
            None => {
                let entry = scaled_price(price as int, exponent as int);
                let notional = notional_value(entry, size as int, market.decimals);
                let margin = required_margin_of(notional, leverage as int);
                &&& r is Ok
                &&& *final(position) == (Position {
                    direction,
                    entry_price: entry as i64,
                    entry_size: size,
                    size,
                    notional: notional as i64,
                    leverage,
                    opened_at: now,
                    ..*old(position)
                })
                &&& final(participant).total_volume == old(participant).total_volume + notional
                &&& final(participant).used_margin == old(participant).used_margin + margin
                &&& final(participant).current_position_seq == old(participant).current_position_seq + 1
                &&& final(participant).positions@ == old(participant).positions@.push(position_key)
                &&& final(participant).virtual_balance == old(participant).virtual_balance
                &&& final(participant).unrealized_pnl == old(participant).unrealized_pnl
                &&& final(participant).league == old(participant).league
                &&& final(participant).user == old(participant).user
                &&& final(participant).claimed == old(participant).claimed
                &&& final(participant).topk_equity_index == old(participant).topk_equity_index
                &&& final(participant).topk_volume_index == old(participant).topk_volume_index
                &&& final(participant).bump == old(participant).bump
                &&& available_of(*final(participant)) >= 0
            },
        },
{
    if league.status != LeagueStatus::Active {
        return Err(ErrorCode::InvalidLeagueStatus);
    }
    if leverage == 0 || leverage > league.max_leverage || leverage > market.max_leverage {
        return Err(ErrorCode::InvalidLeverage);
    }
    if market.price_feed != price_feed {
        return Err(ErrorCode::OracleMismatch);
    }
    if participant.positions.len() >= MAX_OPEN_POSITIONS {
        return Err(ErrorCode::MaxOpenPositionExceeded);
    }
    if position.opened_at != 0 {
        return Err(ErrorCode::PositionAlreadyOpened);
    }
    let entry = scale_price(price, exponent)?;
    let notional = calculate_notional(entry, size, market.decimals)?;
    let margin = required_margin(notional, leverage)?;
    let available = participant.virtual_balance as i128 + participant.unrealized_pnl as i128
        - participant.used_margin as i128;
    if available < margin as i128 {
        return Err(ErrorCode::InsufficientBalance);
    }
    let total_volume = match participant.total_volume.checked_add(notional) {
        Some(v) => v,
        None => {
            return Err(ErrorCode::MathOverflow);
        },
    };
    let used_margin = match participant.used_margin.checked_add(margin) {
        Some(v) => v,
        None => {
            return Err(ErrorCode::MathOverflow);
        },
    };
    let seq = match participant.current_position_seq.checked_add(1) {
        Some(v) => v,
        None => {
            return Err(ErrorCode::MathOverflow);
        },
    };
    position.direction = direction;
    position.entry_size = size;
    position.size = size;
    position.entry_price = entry;
    position.notional = notional;
    position.leverage = leverage;
    position.opened_at = now;
    participant.total_volume = total_volume;
    participant.used_margin = used_margin;
    participant.current_position_seq = seq;
    participant.positions.push(position_key);
    Ok(())
}

/// The open set without `key`.
pub open spec fn without_key(keys: Seq<Key>, key: Key) -> Seq<Key> {
    keys.filter(|k: Key| k != key)
}

/// Removes every occurrence of `key` from `keys`, keeping the order of the rest.
pub fn remove_key(keys: &mut Vec<Key>, key: Key)
    ensures
        final(keys)@ == without_key(old(keys)@, key),
{
    let ghost before = keys@;
    let mut kept: Vec<Key> = Vec::new();
    let mut i: usize = 0;
    while i < keys.len()
        invariant
            i <= keys.len(),
            keys@ == before,
            kept@ == without_key(before.take(i as int), key),
        decreases keys.len() - i,
    {
        let k = keys[i];
        proof {
            assert(before.take(i + 1).drop_last() =~= before.take(i as int));
            assert(before.take(i + 1).last() == k);
            reveal(Seq::filter);
        }
        if k != key {
            kept.push(k);
        }
        i = i + 1;
    }
    assert(before.take(before.len() as int) =~= before);
    *keys = kept;
}

/// Cumulative close statistics once `closing_size` more units leave the
/// position, worth `closing_equity`, realising `realized_pnl`: the new
/// `(closed_size, closed_equity, closed_pnl)`. Shared by voluntary closes and
/// liquidation.
pub fn roll_closed(position: &Position, closing_size: i64, closing_equity: i64, realized_pnl: i64) -> (r: Result<(i64, i64, i64), ErrorCode>)
    ensures
        r == (if fits_i64(position.closed_size + closing_size) && fits_i64(position.closed_equity + closing_equity)
            && fits_i64(position.closed_pnl + realized_pnl) {
            Ok::<(i64, i64, i64), ErrorCode>((
                (position.closed_size + closing_size) as i64,
                (position.closed_equity + closing_equity) as i64,
                (position.closed_pnl + realized_pnl) as i64,
            ))
        } else {
            Err::<(i64, i64, i64), ErrorCode>(ErrorCode::MathOverflow)
        }),
{
    let closed_size = match position.closed_size.checked_add(closing_size) {
        Some(v) => v,
        None => {
            return Err(ErrorCode::MathOverflow);
        },
    };
    let closed_equity = match position.closed_equity.checked_add(closing_equity) {
        Some(v) => v,
        None => {
            return Err(ErrorCode::MathOverflow);
        },
    };
    let closed_pnl = match position.closed_pnl.checked_add(realized_pnl) {
        Some(v) => v,
        None => {
            return Err(ErrorCode::MathOverflow);
        },
    };
    Ok((closed_size, closed_equity, closed_pnl))
}

/// Value of the closing quantity at the exit price.
pub open spec fn closing_equity_of(position: Position, market: Market, exit: int, closing_size: i64) -> int {
    notional_value(exit, closing_size as int, market.decimals)
}

/// Value of the closing quantity at the position's entry price.
pub open spec fn closing_notional_of(position: Position, market: Market, closing_size: i64) -> int {
    notional_value(position.entry_price as int, closing_size as int, market.decimals)
}

pub open spec fn realized_pnl_of(position: Position, market: Market, exit: int, closing_size: i64) -> int {
    (closing_equity_of(position, market, exit, closing_size) - closing_notional_of(position, market, closing_size))
        * sign_of(position.direction)
}

pub open spec fn remaining_notional_of(position: Position, market: Market, closing_size: i64) -> int {
    position.notional - closing_notional_of(position, market, closing_size)
}

/// Margin locked before the close less margin locked after it.
pub open spec fn released_margin_of(position: Position, market: Market, closing_size: i64) -> int {
    locked_margin_of(position.notional as int, position.leverage as int) - locked_margin_of(
        remaining_notional_of(position, market, closing_size),
        position.leverage as int,
    )
}

/// Unrealised profit of what stays open, at the exit price.
pub open spec fn remaining_pnl_of(position: Position, market: Market, exit: int, closing_size: i64) -> int {
    pnl_value(
        remaining_notional_of(position, market, closing_size),
        exit,
        position.size - closing_size,
        market.decimals,
        position.direction,
    )
}

/// Why closing `closing_size` units is refused, checked in this order;
/// `None` when it goes through.
pub open spec fn close_error(
    league: League,
    market: Market,
    participant: Participant,
    position: Position,
    price_feed: Key,
    price: i64,
    exponent: i32,
    closing_size: i64,
) -> Option<ErrorCode> {
    let exit = scaled_price(price as int, exponent as int);
    let closing_equity = closing_equity_of(position, market, exit, closing_size);
    let closing_notional = closing_notional_of(position, market, closing_size);
    let realized = realized_pnl_of(position, market, exit, closing_size);
    let released = released_margin_of(position, market, closing_size);
    let closed_size = position.closed_size + closing_size;
    let closed_equity = position.closed_equity + closing_equity;
    let upnl = remaining_pnl_of(position, market, exit, closing_size);
    if league.status != LeagueStatus::Active {
        Some(ErrorCode::InvalidLeagueStatus)
    } else if position.opened_at == 0 {
        Some(ErrorCode::PositionNotOpened)
    } else if position.closed_at != 0 {
        Some(ErrorCode::PositionAlreadyClosed)
    } else if market.price_feed != price_feed {
        Some(ErrorCode::OracleMismatch)
    } else if !fits_i64(exit) || market.decimals > 38 || !fits_i64(closing_equity) || !fits_i64(closing_notional)
        || !fits_i64(closing_equity - closing_notional) || !fits_i64(realized) || position.leverage == 0
        || !fits_i64(remaining_notional_of(position, market, closing_size)) || !fits_i64(released)
        || !fits_i64(closed_size) || !fits_i64(closed_equity) || !fits_i64(position.closed_pnl + realized)
        || closed_size == 0 || !fits_i64(average_price(closed_equity, closed_size, market.decimals))
        || !fits_i64(position.size - closing_size) || !fits_i64(upnl)
        || !fits_i64(participant.total_volume + closing_equity) || !fits_i64(participant.used_margin - released)
        || !fits_i64(participant.virtual_balance + realized) || !fits_i64(upnl - position.unrealized_pnl)
        || !fits_i64(participant.unrealized_pnl + (upnl - position.unrealized_pnl)) {
        Some(ErrorCode::MathOverflow)
    } else {
        None
    }
}

/// The effect of closing `closing_size` units of `p` at `exit`, as it is
/// stated for the position and the participant.
pub open spec fn closed_as(
    p: Position,
    new_p: Position,
    part: Participant,
    new_part: Participant,
    market: Market,
    position_key: Key,
    exit: int,
    closing_size: i64,
    now: i64,
) -> bool {
    let closing_equity = closing_equity_of(p, market, exit, closing_size);
    let realized = realized_pnl_of(p, market, exit, closing_size);
    let closed_size = p.closed_size + closing_size;
    let closed_equity = p.closed_equity + closing_equity;
    let size = p.size - closing_size;
    let upnl = remaining_pnl_of(p, market, exit, closing_size);
    &&& new_p == (Position {
        size: size as i64,
        notional: remaining_notional_of(p, market, closing_size) as i64,
        unrealized_pnl: upnl as i64,
        closed_size: closed_size as i64,
        closed_equity: closed_equity as i64,
        closed_price: average_price(closed_equity, closed_size, market.decimals) as i64,
        closed_pnl: (p.closed_pnl + realized) as i64,
        closed_at: if size == 0 { now } else { p.closed_at },
        ..p
    })
    &&& new_part.total_volume == part.total_volume + closing_equity
    &&& new_part.used_margin == part.used_margin - released_margin_of(p, market, closing_size)
    &&& new_part.virtual_balance == part.virtual_balance + realized
    &&& new_part.unrealized_pnl == part.unrealized_pnl + (upnl - p.unrealized_pnl)
    &&& new_part.positions@ == (if size == 0 { without_key(part.positions@, position_key) } else { part.positions@ })
    &&& new_part.current_position_seq == part.current_position_seq
    &&& new_part.league == part.league
    &&& new_part.user == part.user
    &&& new_part.claimed == part.claimed
    &&& new_part.topk_equity_index == part.topk_equity_index
    &&& new_part.topk_volume_index == part.topk_volume_index
    &&& new_part.bump == part.bump
}

/// Closes `closing_size` units of `position` at the reading `(price, exponent)`
/// of `price_feed`. The profit realised is `(value at exit - value at entry) *
/// sign(direction)`, both values by the notional formula on the closing size;
/// the margin released is the margin locked before less the margin locked
/// after. The position rolls its cumulative close statistics forward, keeps
/// the rest open with its profit marked at the exit price, and is stamped
/// closed once nothing is left; the participant's balance takes the profit,
/// its volume the exit value, its used margin gives back the released margin,
/// its unrealised profit follows the position's, and a position with nothing
/// left leaves its open set. On refusal nothing changes.
pub fn reduce_position(
    league: &League,
    market: &Market,
    participant: &mut Participant,
    position: &mut Position,
    position_key: Key,
    price_feed: Key,
    price: i64,
    exponent: i32,
    closing_size: i64,
    now: i64,
) -> (r: Result<(), ErrorCode>)
    ensures
        close_error(*league, *market, *old(participant), *old(position), price_feed, price, exponent, closing_size)
            matches Some(e) ==> r == Err::<(), ErrorCode>(e) && *final(participant) == *old(participant)
            && *final(position) == *old(position),
        close_error(*league, *market, *old(participant), *old(position), price_feed, price, exponent, closing_size)
            is None ==> r is Ok && closed_as(
            *old(position),
            *final(position),
            *old(participant),
            *final(participant),
            *market,
            position_key,
            scaled_price(price as int, exponent as int),
            closing_size,
            now,
        ),
{
    if league.status != LeagueStatus::Active {
        return Err(ErrorCode::InvalidLeagueStatus);
    }
    if position.opened_at == 0 {
        return Err(ErrorCode::PositionNotOpened);
    }
    if position.closed_at != 0 {
        return Err(ErrorCode::PositionAlreadyClosed);
    }
    if market.price_feed != price_feed {
        return Err(ErrorCode::OracleMismatch);
    }
    let exit = scale_price(price, exponent)?;
    let closing_equity = calculate_notional(exit, closing_size, market.decimals)?;
    let closing_notional = calculate_notional(position.entry_price, closing_size, market.decimals)?;
    let gain = match closing_equity.checked_sub(closing_notional) {
        Some(v) => v,
        None => {
            return Err(ErrorCode::MathOverflow);
        },
    };
    let realized_pnl = match gain.checked_mul(dir_sign(position.direction)) {
        Some(v) => v,
        None => {
            return Err(ErrorCode::MathOverflow);
        },
    };
    let prev_locked = locked_margin(position.notional, position.leverage)?;
    let remaining_notional = match position.notional.checked_sub(closing_notional) {
        Some(v) => v,
        None => {
            return Err(ErrorCode::MathOverflow);
        },
    };
    let new_locked = locked_margin(remaining_notional, position.leverage)?;
    let released_margin = match prev_locked.checked_sub(new_locked) {
        Some(v) => v,
        None => {
            return Err(ErrorCode::MathOverflow);
        },
    };
    let (closed_size, closed_equity, closed_pnl) = roll_closed(position, closing_size, closing_equity, realized_pnl)?;
    let closed_price = calculate_price_from_notional_and_size(closed_equity, closed_size, market.decimals)?;
    let size = match position.size.checked_sub(closing_size) {
        Some(v) => v,
        None => {
            return Err(ErrorCode::MathOverflow);
        },
    };
    let upnl = calculate_unrealized_pnl(remaining_notional, exit, size, market.decimals, position.direction)?;
    let total_volume = match participant.total_volume.checked_add(closing_equity) {
        Some(v) => v,
        None => {
            return Err(ErrorCode::MathOverflow);
        },
    };
    let used_margin = match participant.used_margin.checked_sub(released_margin) {
        Some(v) => v,
        None => {
            return Err(ErrorCode::MathOverflow);
        },
    };
    let virtual_balance = match participant.virtual_balance.checked_add(realized_pnl) {
        Some(v) => v,
        None => {
            return Err(ErrorCode::MathOverflow);
        },
    };
    let upnl_delta = match upnl.checked_sub(position.unrealized_pnl) {
        Some(v) => v,
        None => {
            return Err(ErrorCode::MathOverflow);
        },
    };
    let participant_upnl = match participant.unrealized_pnl.checked_add(upnl_delta) {
        Some(v) => v,
        None => {
            return Err(ErrorCode::MathOverflow);
        },
    };
    position.closed_size = closed_size;
    position.closed_equity = closed_equity;
    position.closed_price = closed_price;
    position.closed_pnl = closed_pnl;
    position.size = size;
    position.notional = remaining_notional;
    position.unrealized_pnl = upnl;
    participant.total_volume = total_volume;
    participant.used_margin = used_margin;
    participant.virtual_balance = virtual_balance;
    participant.unrealized_pnl = participant_upnl;
    if size == 0 {
        position.closed_at = now;
        remove_key(&mut participant.positions, position_key);
    }
    Ok(())
}

/// Closes the whole of `position`: `reduce_position` with its full size.
pub fn close_position(
    league: &League,
    market: &Market,
    participant: &mut Participant,
    position: &mut Position,
    position_key: Key,
    price_feed: Key,
    price: i64,
    exponent: i32,
    now: i64,
) -> (r: Result<(), ErrorCode>)
    ensures
        close_error(*league, *market, *old(participant), *old(position), price_feed, price, exponent, old(position).size)
            matches Some(e) ==> r == Err::<(), ErrorCode>(e) && *final(participant) == *old(participant)
            && *final(position) == *old(position),
        close_error(*league, *market, *old(participant), *old(position), price_feed, price, exponent, old(position).size)
            is None ==> r is Ok && closed_as(
            *old(position),
            *final(position),
            *old(participant),
            *final(participant),
            *market,
            position_key,
            scaled_price(price as int, exponent as int),
            old(position).size,
            now,
        ),
        r is Ok ==> final(position).size == 0 && final(position).closed_at == now
            && final(participant).positions@ == without_key(old(participant).positions@, position_key),
{
    let closing_size = position.size;
    reduce_position(league, market, participant, position, position_key, price_feed, price, exponent, closing_size, now)
}
} // verus!
