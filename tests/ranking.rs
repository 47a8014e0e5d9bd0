use tdf_program::leaderboard::{update_leaderboard_with_participant, update_topk_equity, update_topk_list, update_topk_volume};
use tdf_program::errors::ErrorCode;
use tdf_program::state::{Key, Leaderboard, Participant};

fn key(n: u128) -> Key {
    Key { hi: n, lo: 0 }
}

fn board_fixture(k: u16) -> Leaderboard {
    Leaderboard {
        league: key(99),
        k,
        topk_equity: vec![],
        topk_equity_scores: vec![],
        topk_volume: vec![],
        topk_volume_scores: vec![],
        last_updated: 0,
        bump: 0,
    }
}

fn ranked(list: &[Key], scores: &[i64]) -> Vec<(Key, i64)> {
    list.iter().copied().zip(scores.iter().copied()).collect()
}

#[test]
fn top_three_keeps_highest_and_resorts() {
    let (a, b, c, d) = (key(1), key(2), key(3), key(4));
    let mut list = vec![];
    let mut scores = vec![];
    for (who, s) in [(a, 100), (b, 90), (c, 80), (d, 70)] {
        assert_eq!(update_topk_list(&mut list, &mut scores, who, s, 3), Ok(()));
    }
    assert_eq!(ranked(&list, &scores), vec![(a, 100), (b, 90), (c, 80)]);
    update_topk_list(&mut list, &mut scores, b, 60, 3).unwrap();
    assert_eq!(ranked(&list, &scores), vec![(a, 100), (c, 80), (b, 60)]);
}

#[test]
fn same_update_twice_equals_once() {
    let mut list = vec![key(1), key(2), key(3)];
    let mut scores = vec![50, 40, 30];
    update_topk_list(&mut list, &mut scores, key(4), 45, 3).unwrap();
    let once = ranked(&list, &scores);
    update_topk_list(&mut list, &mut scores, key(4), 45, 3).unwrap();
    assert_eq!(ranked(&list, &scores), once);
    assert_eq!(once, vec![(key(1), 50), (key(4), 45), (key(2), 40)]);
    update_topk_list(&mut list, &mut scores, key(5), 10, 3).unwrap();
    let dropped = ranked(&list, &scores);
    update_topk_list(&mut list, &mut scores, key(5), 10, 3).unwrap();
    assert_eq!(ranked(&list, &scores), dropped);
    assert_eq!(dropped, once);
}

#[test]
fn zero_capacity_changes_nothing() {
    let mut list = vec![key(1)];
    let mut scores = vec![5, 6];
    update_topk_list(&mut list, &mut scores, key(2), 100, 0).unwrap();
    assert_eq!(list, vec![key(1)]);
    assert_eq!(scores, vec![5, 6]);
}

#[test]
fn ties_keep_prior_order() {
    let mut list = vec![];
    let mut scores = vec![];
    update_topk_list(&mut list, &mut scores, key(1), 10, 2).unwrap();
    update_topk_list(&mut list, &mut scores, key(2), 10, 2).unwrap();
    update_topk_list(&mut list, &mut scores, key(3), 10, 2).unwrap();
    assert_eq!(ranked(&list, &scores), vec![(key(1), 10), (key(2), 10)]);
}

#[test]
fn ranking_stays_bounded_sorted_unique() {
    let mut list = vec![];
    let mut scores = vec![];
    let updates = [(1, 5), (2, 9), (1, 12), (3, -4), (4, 9), (2, 1), (5, 30), (3, 8)];
    for (who, s) in updates {
        update_topk_list(&mut list, &mut scores, key(who), s, 4).unwrap();
        assert!(list.len() <= 4);
        assert_eq!(list.len(), scores.len());
        assert!(scores.windows(2).all(|w| w[0] >= w[1]));
        let mut seen = list.clone();
        seen.sort_by_key(|k| k.hi);
        seen.dedup();
        assert_eq!(seen.len(), list.len());
    }
    assert_eq!(ranked(&list, &scores), vec![(key(5), 30), (key(1), 12), (key(4), 9), (key(3), 8)]);
}

#[test]
fn mismatched_vectors_pair_up_to_shorter() {
    let mut list = vec![key(1), key(2), key(3)];
    let mut scores = vec![7];
    update_topk_list(&mut list, &mut scores, key(9), 8, 5).unwrap();
    assert_eq!(ranked(&list, &scores), vec![(key(9), 8), (key(1), 7)]);
    assert_eq!(list.len(), 2);
}

#[test]
fn both_boards_follow_the_participant() {
    let mut board = board_fixture(2);
    let p = Participant {
        league: key(99),
        user: key(7),
        claimed: false,
        virtual_balance: 1_000,
        unrealized_pnl: -300,
        used_margin: 0,
        total_volume: 5_000,
        topk_equity_index: 0xFFFF,
        topk_volume_index: 0xFFFF,
        current_position_seq: 0,
        positions: vec![],
        bump: 0,
    };
    assert_eq!(update_leaderboard_with_participant(&mut board, &p, 42), Ok(()));
    assert_eq!(ranked(&board.topk_equity, &board.topk_equity_scores), vec![(key(7), 700)]);
    assert_eq!(ranked(&board.topk_volume, &board.topk_volume_scores), vec![(key(7), 5_000)]);
    assert_eq!(board.last_updated, 42);
    update_topk_equity(&mut board, key(8), 800).unwrap();
    update_topk_volume(&mut board, key(8), 1).unwrap();
    assert_eq!(board.topk_equity, vec![key(8), key(7)]);
    assert_eq!(board.topk_volume, vec![key(7), key(8)]);
    let mut rich = p.clone();
    rich.virtual_balance = i64::MAX;
    rich.unrealized_pnl = 1;
    assert_eq!(update_leaderboard_with_participant(&mut board, &rich, 50), Err(ErrorCode::MathOverflow));
    assert_eq!(board.last_updated, 42);
}
