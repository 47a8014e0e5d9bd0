use tdf_program::errors::ErrorCode;
use tdf_program::participant::{liquidate_participant_positions, update_participant, PositionEntry, PriceReading};
use tdf_program::position::init_unopened_position;
use tdf_program::state::{Direction, Key, Participant, Position};

fn id(n: u128) -> Key {
    Key { hi: 0, lo: n }
}

fn member(balance: i64, positions: Vec<Key>) -> Participant {
    Participant {
        league: id(90),
        user: id(91),
        claimed: false,
        virtual_balance: balance,
        unrealized_pnl: 0,
        used_margin: 0,
        total_volume: 0,
        topk_equity_index: 0xFFFF,
        topk_volume_index: 0xFFFF,
        current_position_seq: 0,
        positions,
        bump: 0,
    }
}

/// An open position in a market priced without decimals.
fn held(feed: u128, direction: Direction, entry: i64, size: i64, leverage: u8) -> Position {
    let mut p = init_unopened_position(id(90), id(91), id(50), 0, id(feed), 0, 0);
    p.direction = direction;
    p.entry_price = entry;
    p.entry_size = size;
    p.size = size;
    p.notional = entry * size;
    p.leverage = leverage;
    p.opened_at = 1;
    p
}

fn entry(key: u128, position: Position, price: i64) -> PositionEntry {
    PositionEntry { key: id(key), position, reading: PriceReading { feed: position.price_feed, price, exponent: 6 } }
}

#[test]
fn negative_equity_liquidates_everything() {
    let mut part = member(1_000, vec![id(1), id(2)]);
    part.used_margin = 1_000;
    part.total_volume = 2_000;
    let mut entries = vec![
        entry(1, held(11, Direction::Long, 100, 10, 2), 50),
        entry(2, held(12, Direction::Long, 100, 10, 2), 45),
    ];
    assert_eq!(update_participant(&mut part, &mut entries, 777), Ok(()));
    for e in &entries {
        assert_eq!(e.position.size, 0);
        assert_eq!(e.position.notional, 0);
        assert_eq!(e.position.unrealized_pnl, 0);
        assert_eq!(e.position.closed_at, 777);
        assert_eq!(e.position.closed_size, 10);
    }
    assert_eq!(entries[0].position.closed_pnl, -500);
    assert_eq!(entries[0].position.closed_equity, 500);
    assert_eq!(entries[0].position.closed_price, 50);
    assert_eq!(entries[1].position.closed_pnl, -550);
    assert_eq!(entries[1].position.closed_price, 45);
    assert!(part.positions.is_empty());
    assert_eq!(part.used_margin, 0);
    assert_eq!(part.unrealized_pnl, 0);
    assert_eq!(part.virtual_balance, -50);
    assert_eq!(part.total_volume, 2_950);
}

#[test]
fn solvent_pass_marks_positions() {
    let mut part = member(1_000, vec![id(1), id(2), id(3)]);
    let mut closed = held(13, Direction::Long, 100, 10, 2);
    closed.size = 0;
    closed.notional = 0;
    closed.unrealized_pnl = 4;
    let mut entries = vec![
        entry(1, held(11, Direction::Long, 100, 10, 3), 120),
        entry(2, held(12, Direction::Short, 100, 10, 4), 120),
        PositionEntry { key: id(3), position: closed, reading: PriceReading { feed: id(999), price: 0, exponent: 0 } },
    ];
    assert_eq!(update_participant(&mut part, &mut entries, 5), Ok(()));
    assert_eq!(entries[0].position.unrealized_pnl, 200);
    assert_eq!(entries[1].position.unrealized_pnl, -200);
    assert_eq!(entries[2].position.unrealized_pnl, 4);
    assert_eq!(part.unrealized_pnl, 0);
    assert_eq!(part.used_margin, 333 + 250);
    assert_eq!(part.virtual_balance, 1_000);
    assert_eq!(part.positions.len(), 3);
    assert_eq!(entries[0].position.size, 10);
}

#[test]
fn recompute_replaces_rather_than_adds() {
    let mut part = member(1_000, vec![id(1)]);
    part.unrealized_pnl = 12_345;
    part.used_margin = 99_999;
    let mut entries = vec![entry(1, held(11, Direction::Long, 100, 10, 2), 110)];
    update_participant(&mut part, &mut entries, 5).unwrap();
    update_participant(&mut part, &mut entries, 6).unwrap();
    assert_eq!(part.unrealized_pnl, 100);
    assert_eq!(part.used_margin, 500);
}

#[test]
fn pairing_refusals() {
    let mut part = member(1_000, vec![id(1), id(2)]);
    let before = part.clone();
    let mut short = vec![entry(1, held(11, Direction::Long, 100, 10, 2), 100)];
    assert_eq!(update_participant(&mut part, &mut short, 1), Err(ErrorCode::InvalidUpdateParticipantRemainingAccounts));
    let mut swapped = vec![
        entry(2, held(12, Direction::Long, 100, 10, 2), 100),
        entry(1, held(11, Direction::Long, 100, 10, 2), 100),
    ];
    assert_eq!(update_participant(&mut part, &mut swapped, 1), Err(ErrorCode::PositionMismatch));
    let mut wrong_feed = vec![
        entry(1, held(11, Direction::Long, 100, 10, 2), 100),
        entry(2, held(12, Direction::Long, 100, 10, 2), 100),
    ];
    wrong_feed[1].reading.feed = id(11);
    assert_eq!(update_participant(&mut part, &mut wrong_feed, 1), Err(ErrorCode::OracleMismatch));
    assert_eq!(part.used_margin, before.used_margin);
    assert_eq!(part.unrealized_pnl, before.unrealized_pnl);
    assert_eq!(wrong_feed[0].position.unrealized_pnl, 0);
}

#[test]
fn overflow_aborts_whole_pass() {
    let mut part = member(1_000, vec![id(1), id(2)]);
    let mut entries = vec![
        entry(1, held(11, Direction::Long, 100, 10, 2), 110),
        entry(2, held(12, Direction::Long, 100, 10, 0), 110),
    ];
    assert_eq!(update_participant(&mut part, &mut entries, 1), Err(ErrorCode::MathOverflow));
    assert_eq!(entries[0].position.unrealized_pnl, 0);
    assert_eq!(part.used_margin, 0);
    let mut huge = vec![
        entry(1, held(11, Direction::Long, 1, i64::MAX, 1), 2),
        entry(2, held(12, Direction::Long, 100, 10, 2), 110),
    ];
    assert_eq!(update_participant(&mut part, &mut huge, 1), Err(ErrorCode::MathOverflow));
}

#[test]
fn liquidation_overflow_changes_nothing() {
    let mut part = member(-10, vec![id(1), id(2)]);
    part.total_volume = i64::MAX - 100;
    let mut entries = vec![
        entry(1, held(11, Direction::Long, 100, 10, 2), 50),
        entry(2, held(12, Direction::Long, 100, 10, 2), 50),
    ];
    assert_eq!(update_participant(&mut part, &mut entries, 3), Err(ErrorCode::MathOverflow));
    assert_eq!(part.total_volume, i64::MAX - 100);
    assert_eq!(part.unrealized_pnl, 0);
    assert_eq!(part.positions.len(), 2);
    assert_eq!(entries[0].position.size, 10);
    assert_eq!(entries[0].position.unrealized_pnl, 0);
}

#[test]
fn direct_liquidation_realizes_stored_pnl() {
    let mut part = member(100, vec![id(1)]);
    part.used_margin = 500;
    part.unrealized_pnl = -300;
    let mut p = held(11, Direction::Short, 100, 10, 2);
    p.unrealized_pnl = -300;
    let mut entries = vec![entry(1, p, 130)];
    assert_eq!(liquidate_participant_positions(&mut part, &mut entries, 9), Ok(()));
    assert_eq!(part.virtual_balance, -200);
    assert_eq!(part.used_margin, 0);
    assert_eq!(part.total_volume, 1_300);
    assert_eq!(entries[0].position.closed_pnl, -300);
    assert_eq!(entries[0].position.closed_equity, 1_300);
    assert_eq!(entries[0].position.closed_at, 9);
}
