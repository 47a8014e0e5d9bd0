use vstd::prelude::*;

use crate::errors::ErrorCode;
use crate::math::{
    average_price, calculate_notional, calculate_price_from_notional_and_size, calculate_unrealized_pnl,
    fits_i64, locked_margin, locked_margin_of, notional_value, pnl_value, scale_price, scaled_price,
};
use crate::position::roll_closed;
use crate::state::{Key, Participant, Position};

verus! {

/// What an oracle reported: its identity, a raw price and a decimal exponent.
#[derive(Clone, Copy, Debug, PartialEq, Eq, Structural)]
pub struct PriceReading {
    pub feed: Key,
    pub price: i64,
    pub exponent: i32,
}

/// One member of a participant's open set, as handed to a recompute pass:
/// the position's identity, its record, and a fresh reading of its feed.
#[derive(Clone, Copy, Debug, PartialEq, Eq, Structural)]
pub struct PositionEntry {
    pub key: Key,
    pub position: Position,
    pub reading: PriceReading,
}

pub open spec fn live(e: PositionEntry) -> bool {
    e.position.size != 0
}

/// The entry's reading at the library's scale.
pub open spec fn mark_price(e: PositionEntry) -> int {
    scaled_price(e.reading.price as int, e.reading.exponent as int)
}

/// The position's unrealised profit at the entry's reading.
pub open spec fn marked_pnl(e: PositionEntry) -> int {
    let p = e.position;
    pnl_value(p.notional as int, mark_price(e), p.size as int, p.market_decimals, p.direction)
}

/// Margin that the position locks.
pub open spec fn margin_of(e: PositionEntry) -> int {
    locked_margin_of(e.position.notional as int, e.position.leverage as int)
}

/// Value of the position at the entry's reading.
pub open spec fn exit_value(e: PositionEntry) -> int {
    notional_value(mark_price(e), e.position.size as int, e.position.market_decimals)
}

pub open spec fn pnl_term() -> spec_fn(PositionEntry) -> int {
    |e: PositionEntry| marked_pnl(e)
}

pub open spec fn margin_term() -> spec_fn(PositionEntry) -> int {
    |e: PositionEntry| margin_of(e)
}

pub open spec fn released_term() -> spec_fn(PositionEntry) -> int {
    |e: PositionEntry| -margin_of(e)
}

pub open spec fn realized_term() -> spec_fn(PositionEntry) -> int {
    |e: PositionEntry| e.position.unrealized_pnl as int
}

pub open spec fn exit_term() -> spec_fn(PositionEntry) -> int {
    |e: PositionEntry| exit_value(e)
}

/// Sum of `f` over the live entries among the first `n`.
pub open spec fn live_sum(es: Seq<PositionEntry>, n: nat, f: spec_fn(PositionEntry) -> int) -> int
    decreases n,
{
    if n == 0 {
        0
    } else {
        live_sum(es, (n - 1) as nat, f) + if live(es[n - 1]) {
            f(es[n - 1])
        } else {
            0
        }
    }
}

/// Adding the live terms one by one onto `base`, every running total fits an
/// `i64`.
pub open spec fn running_fits(base: int, es: Seq<PositionEntry>, f: spec_fn(PositionEntry) -> int) -> bool {
    forall|m: nat| m <= es.len() ==> fits_i64(base + #[trigger] live_sum(es, m, f))
}

/// A live entry can be marked: its reading scales, its profit fits, its
/// leverage divides.
pub open spec fn markable(e: PositionEntry) -> bool {
    live(e) ==> {
        &&& fits_i64(mark_price(e))
        &&& e.position.market_decimals <= 38
        &&& fits_i64(marked_pnl(e))
        &&& e.position.leverage != 0
    }
}

pub open spec fn marked(e: PositionEntry) -> PositionEntry {
    if live(e) {
        PositionEntry { position: Position { unrealized_pnl: marked_pnl(e) as i64, ..e.position }, ..e }
    } else {
        e
    }
}

pub open spec fn marked_all(es: Seq<PositionEntry>) -> Seq<PositionEntry> {
    es.map_values(|e: PositionEntry| marked(e))
}

pub open spec fn marking_succeeds(es: Seq<PositionEntry>) -> bool {
    &&& forall|i: int| 0 <= i < es.len() ==> markable(#[trigger] es[i])
    &&& running_fits(0, es, pnl_term())
    &&& running_fits(0, es, margin_term())
}

/// A live entry can be liquidated: every figure of its forced close fits.
pub open spec fn liquidatable(e: PositionEntry) -> bool {
    let p = e.position;
    let closed_size = p.closed_size + p.size;
    let closed_equity = p.closed_equity + exit_value(e);
    live(e) ==> {
        &&& fits_i64(mark_price(e))
        &&& p.market_decimals <= 38
        &&& p.leverage != 0
        &&& fits_i64(exit_value(e))
        &&& fits_i64(closed_size)
        &&& fits_i64(closed_equity)
        &&& fits_i64(p.closed_pnl + p.unrealized_pnl)
        &&& closed_size > 0 ==> fits_i64(average_price(closed_equity, closed_size, p.market_decimals))
    }
}

/// The position after a forced close at the entry's reading: its unrealised
/// profit is realised, the close statistics roll forward, nothing stays open.
pub open spec fn liquidated(e: PositionEntry, now: i64) -> PositionEntry {
    let p = e.position;
    let closed_size = p.closed_size + p.size;
    let closed_equity = p.closed_equity + exit_value(e);
    if live(e) {
        PositionEntry {
            position: Position {
                closed_size: closed_size as i64,
                closed_equity: closed_equity as i64,
                closed_price: if closed_size > 0 {
                    average_price(closed_equity, closed_size, p.market_decimals) as i64
                } else {
                    p.closed_price
                },
                closed_pnl: (p.closed_pnl + p.unrealized_pnl) as i64,
                size: 0,
                notional: 0,
                unrealized_pnl: 0,
                closed_at: now,
                ..p
            },
            ..e
        }
    } else {
        e
    }
}

pub open spec fn liquidated_all(es: Seq<PositionEntry>, now: i64) -> Seq<PositionEntry> {
    es.map_values(|e: PositionEntry| liquidated(e, now))
}

pub open spec fn liquidation_succeeds(p: Participant, es: Seq<PositionEntry>) -> bool {
    &&& forall|i: int| 0 <= i < es.len() ==> liquidatable(#[trigger] es[i])
    &&& running_fits(p.total_volume as int, es, exit_term())
    &&& running_fits(p.used_margin as int, es, released_term())
    &&& running_fits(p.virtual_balance as int, es, realized_term())
}

/// Everything but the four aggregates and the open set is as before.
pub open spec fn same_identity(a: Participant, b: Participant) -> bool {
    &&& a.league == b.league
    &&& a.user == b.user
    &&& a.claimed == b.claimed
    &&& a.topk_equity_index == b.topk_equity_index
    &&& a.topk_volume_index == b.topk_volume_index
    &&& a.current_position_seq == b.current_position_seq
    &&& a.bump == b.bump
}

proof fn lemma_live_sum_step(es: Seq<PositionEntry>, i: nat, f: spec_fn(PositionEntry) -> int)
    requires
        i < es.len(),
    ensures
        live_sum(es, i + 1, f) == live_sum(es, i, f) + if live(es[i as int]) {
            f(es[i as int])
        } else {
            0
        },
{
}

/// Two entry lists that agree, position by position, on liveness and on the
/// live terms have equal sums.
proof fn lemma_live_sum_agree(
    a: Seq<PositionEntry>,
    b: Seq<PositionEntry>,
    n: nat,
    f: spec_fn(PositionEntry) -> int,
    g: spec_fn(PositionEntry) -> int,
)
    requires
        n <= a.len(),
        n <= b.len(),
        forall|i: int| 0 <= i < n ==> live(#[trigger] a[i]) == live(b[i]),
        forall|i: int| 0 <= i < n && live(#[trigger] a[i]) ==> f(a[i]) == g(b[i]),
    ensures
        live_sum(a, n, f) == live_sum(b, n, g),
    decreases n,
{
    if n > 0 {
        lemma_live_sum_agree(a, b, (n - 1) as nat, f, g);
        assert(live(a[n - 1]) == live(b[n - 1]));
    }
}

/// Forces the close of every live entry at its reading. Each position's
/// unrealised profit is realised into the participant's balance, the value at
/// the reading is added to its volume, the position's locked margin
/// (`notional / leverage`) leaves its used margin, and the position is
/// stamped closed with nothing left open. Afterwards the open set is empty and
/// the unrealised profit is zero. All of it happens, or on an overflow none of
/// it does.
pub fn liquidate_participant_positions(
    participant: &mut Participant,
    entries: &mut Vec<PositionEntry>,
    now: i64,
) -> (r: Result<(), ErrorCode>)
    ensures
        liquidation_succeeds(*old(participant), old(entries)@) ==> {
            let es = old(entries)@;
            let n = es.len();
            &&& r is Ok
            &&& final(entries)@ == liquidated_all(es, now)
            &&& final(participant).total_volume == old(participant).total_volume + live_sum(es, n, exit_term())
            &&& final(participant).used_margin == old(participant).used_margin + live_sum(es, n, released_term())
            &&& final(participant).virtual_balance == old(participant).virtual_balance + live_sum(es, n, realized_term())
            &&& final(participant).unrealized_pnl == 0
            &&& final(participant).positions@.len() == 0
            &&& same_identity(*final(participant), *old(participant))
        },
        !liquidation_succeeds(*old(participant), old(entries)@) ==> {
            &&& r == Err::<(), ErrorCode>(ErrorCode::MathOverflow)
            &&& *final(participant) == *old(participant)
            &&& final(entries)@ == old(entries)@
        },
{
    let ghost es = entries@;
    let mut out: Vec<PositionEntry> = Vec::new();
    let mut total_volume = participant.total_volume;
    let mut used_margin = participant.used_margin;
    let mut virtual_balance = participant.virtual_balance;
    let mut i: usize = 0;
    while i < entries.len()
        invariant
            i <= entries.len(),
            entries@ == es,
            out@ == liquidated_all(es, now).take(i as int),
            forall|j: int| 0 <= j < i ==> liquidatable(#[trigger] es[j]),
            forall|m: nat| m <= i ==> fits_i64(participant.total_volume + #[trigger] live_sum(es, m, exit_term())),
            forall|m: nat| m <= i ==> fits_i64(participant.used_margin + #[trigger] live_sum(es, m, released_term())),
            forall|m: nat| m <= i ==> fits_i64(participant.virtual_balance + #[trigger] live_sum(es, m, realized_term())),
            total_volume == participant.total_volume + live_sum(es, i as nat, exit_term()),
            used_margin == participant.used_margin + live_sum(es, i as nat, released_term()),
            virtual_balance == participant.virtual_balance + live_sum(es, i as nat, realized_term()),
        decreases entries.len() - i,
    {
        let e = entries[i];
        proof {
            lemma_live_sum_step(es, i as nat, exit_term());
            lemma_live_sum_step(es, i as nat, released_term());
            lemma_live_sum_step(es, i as nat, realized_term());
        }
        if e.position.size == 0 {
            out.push(e);
        } else {
            let p = e.position;
            let price = match scale_price(e.reading.price, e.reading.exponent) {
                Ok(v) => v,
                Err(err) => {
                    return Err(err);
                },
            };
            let released = match locked_margin(p.notional, p.leverage) {
                Ok(v) => v,
                Err(err) => {
                    return Err(err);
                },
            };
            let closing_equity = match calculate_notional(price, p.size, p.market_decimals) {
                Ok(v) => v,
                Err(err) => {
                    return Err(err);
                },
            };
            let (closed_size, closed_equity, closed_pnl) = match roll_closed(&p, p.size, closing_equity, p.unrealized_pnl) {
                Ok(v) => v,
                Err(err) => {
                    return Err(err);
                },
            };
            let closed_price = if closed_size > 0 {
                match calculate_price_from_notional_and_size(closed_equity, closed_size, p.market_decimals) {
                    Ok(v) => v,
                    Err(err) => {
                        return Err(err);
                    },
                }
            } else {
                p.closed_price
            };
            total_volume = match total_volume.checked_add(closing_equity) {
                Some(v) => v,
                None => {
                    return Err(ErrorCode::MathOverflow);
                },
            };
            used_margin = match used_margin.checked_sub(released) {
                Some(v) => v,
                None => {
                    return Err(ErrorCode::MathOverflow);
                },
            };
            virtual_balance = match virtual_balance.checked_add(p.unrealized_pnl) {
                Some(v) => v,
                None => {
                    return Err(ErrorCode::MathOverflow);
                },
            };
            let closed = Position {
                closed_size,
                closed_equity,
                closed_price,
                closed_pnl,
                size: 0,
                notional: 0,
                unrealized_pnl: 0,
                closed_at: now,
                ..p
            };
            out.push(PositionEntry { position: closed, ..e });
        }
        proof {
            assert(out@ =~= liquidated_all(es, now).take(i + 1));
        }
        i = i + 1;
    }
    assert(out@ =~= liquidated_all(es, now));
    participant.total_volume = total_volume;
    participant.used_margin = used_margin;
    participant.virtual_balance = virtual_balance;
    participant.positions = Vec::new();
    participant.unrealized_pnl = 0;
    *entries = out;
    Ok(())
}

/// Why a recompute pass is refused before any arithmetic, checked in this
/// order: the entries must pair one for one with the open set, in its order,
/// and each live entry's reading must come from the position's own feed.
pub open spec fn pairing_error(keys: Seq<Key>, es: Seq<PositionEntry>) -> Option<ErrorCode> {
    if es.len() != keys.len() {
        Some(ErrorCode::InvalidUpdateParticipantRemainingAccounts)
    } else if exists|i: int| 0 <= i < es.len() && (#[trigger] es[i]).key != keys[i] {
        Some(ErrorCode::PositionMismatch)
    } else if exists|i: int| 0 <= i < es.len() && live(#[trigger] es[i]) && es[i].reading.feed != es[i].position.price_feed {
        Some(ErrorCode::OracleMismatch)
    } else {
        None
    }
}

/// The participant once its aggregates are replaced by the marked totals.
pub open spec fn marked_participant(p: Participant, es: Seq<PositionEntry>) -> Participant {
    Participant {
        unrealized_pnl: live_sum(es, es.len(), pnl_term()) as i64,
        used_margin: live_sum(es, es.len(), margin_term()) as i64,
        ..p
    }
}

/// The marked totals leave the participant with negative equity.
pub open spec fn liquidates(p: Participant, es: Seq<PositionEntry>) -> bool {
    p.virtual_balance + live_sum(es, es.len(), pnl_term()) < 0
}

/// Some figure of the pass overflows: in marking, or in the liquidation that
/// negative equity calls for.
pub open spec fn pass_fails(p: Participant, es: Seq<PositionEntry>) -> bool {
    ||| !marking_succeeds(es)
    ||| liquidates(p, es) && !liquidation_succeeds(marked_participant(p, es), marked_all(es))
}

/// Recompute pass over a participant's open set. Each live position is marked
/// at its entry's reading; the participant's unrealised profit and used margin
/// are replaced by the totals over its live positions. If the equity
/// `virtual_balance + unrealized_pnl` is then negative, every position is
/// liquidated in the same pass. The pass happens whole or not at all.
pub fn update_participant(
    participant: &mut Participant,
    entries: &mut Vec<PositionEntry>,
    now: i64,
) -> (r: Result<(), ErrorCode>)
    ensures
        pairing_error(old(participant).positions@, old(entries)@) matches Some(e) ==> r == Err::<(), ErrorCode>(e)
            && *final(participant) == *old(participant) && final(entries)@ == old(entries)@,
        pairing_error(old(participant).positions@, old(entries)@) is None && pass_fails(*old(participant), old(entries)@)
            ==> r == Err::<(), ErrorCode>(ErrorCode::MathOverflow) && *final(participant) == *old(participant)
            && final(entries)@ == old(entries)@,
        pairing_error(old(participant).positions@, old(entries)@) is None && !pass_fails(*old(participant), old(entries)@)
            && !liquidates(*old(participant), old(entries)@) ==> r is Ok
            && *final(participant) == marked_participant(*old(participant), old(entries)@)
            && final(entries)@ == marked_all(old(entries)@),
        pairing_error(old(participant).positions@, old(entries)@) is None && !pass_fails(*old(participant), old(entries)@)
            && liquidates(*old(participant), old(entries)@) ==> {
            let es = old(entries)@;
            &&& r is Ok
            &&& final(entries)@ == liquidated_all(marked_all(es), now)
            &&& final(participant).total_volume == old(participant).total_volume + live_sum(marked_all(es), es.len(), exit_term())
            &&& final(participant).virtual_balance == old(participant).virtual_balance + live_sum(es, es.len(), pnl_term())
            &&& same_identity(*final(participant), *old(participant))
        },
        r is Ok && !liquidates(*old(participant), old(entries)@) ==> forall|i: int|
            0 <= i < old(entries)@.len() && live(#[trigger] old(entries)@[i]) ==> {
                let p = old(entries)@[i].position;
                final(entries)@[i].position.unrealized_pnl == pnl_value(
                    p.notional as int,
                    mark_price(old(entries)@[i]),
                    p.size as int,
                    p.market_decimals,
                    p.direction,
                )
            },
        r is Ok && liquidates(*old(participant), old(entries)@) ==> final(participant).used_margin == 0
            && final(participant).unrealized_pnl == 0 && final(participant).positions@.len() == 0,
{
    let ghost es = entries@;
    let ghost keys = participant.positions@;
    if entries.len() != participant.positions.len() {
        return Err(ErrorCode::InvalidUpdateParticipantRemainingAccounts);
    }
    let mut i: usize = 0;
    while i < entries.len()
        invariant
            i <= entries.len() == participant.positions@.len(),
            entries@ == es,
            forall|j: int| 0 <= j < i ==> (#[trigger] es[j]).key == participant.positions@[j],
            keys == old(participant).positions@,
            *participant == *old(participant),
        decreases entries.len() - i,
    {
        if entries[i].key != participant.positions[i] {
            assert(es[i as int].key != participant.positions@[i as int]);
            return Err(ErrorCode::PositionMismatch);
        }
        i = i + 1;
    }
    let mut i: usize = 0;
    while i < entries.len()
        invariant
            i <= entries.len(),
            entries@ == es,
            forall|j: int| 0 <= j < i ==> !(live(#[trigger] es[j]) && es[j].reading.feed != es[j].position.price_feed),
            es.len() == keys.len(),
            forall|j: int| 0 <= j < es.len() ==> (#[trigger] es[j]).key == keys[j],
            keys == old(participant).positions@,
            *participant == *old(participant),
        decreases entries.len() - i,
    {
        let e = entries[i];
        if e.position.size != 0 && e.reading.feed != e.position.price_feed {
            assert(live(es[i as int]) && es[i as int].reading.feed != es[i as int].position.price_feed);
            return Err(ErrorCode::OracleMismatch);
        }
        i = i + 1;
    }
    assert(pairing_error(keys, es) is None);
    let mut marked_entries: Vec<PositionEntry> = Vec::new();
    let mut total_upnl: i64 = 0;
    let mut total_margin: i64 = 0;
    let mut i: usize = 0;
    while i < entries.len()
        invariant
            i <= entries.len(),
            entries@ == es,
            marked_entries@ == marked_all(es).take(i as int),
            forall|j: int| 0 <= j < i ==> markable(#[trigger] es[j]),
            forall|m: nat| m <= i ==> fits_i64(#[trigger] live_sum(es, m, pnl_term())),
            forall|m: nat| m <= i ==> fits_i64(#[trigger] live_sum(es, m, margin_term())),
            total_upnl == live_sum(es, i as nat, pnl_term()),
            total_margin == live_sum(es, i as nat, margin_term()),
            pairing_error(keys, es) is None,
            keys == old(participant).positions@,
            *participant == *old(participant),
        decreases entries.len() - i,
    {
        let e = entries[i];
        proof {
            lemma_live_sum_step(es, i as nat, pnl_term());
            lemma_live_sum_step(es, i as nat, margin_term());
        }
        if e.position.size == 0 {
            marked_entries.push(e);
        } else {
            let p = e.position;
            let price = match scale_price(e.reading.price, e.reading.exponent) {
                Ok(v) => v,
                Err(err) => {
                    return Err(err);
                },
            };
            let upnl = match calculate_unrealized_pnl(p.notional, price, p.size, p.market_decimals, p.direction) {
                Ok(v) => v,
                Err(err) => {
                    return Err(err);
                },
            };
            let margin = match locked_margin(p.notional, p.leverage) {
                Ok(v) => v,
                Err(err) => {
                    return Err(err);
                },
            };
            total_upnl = match total_upnl.checked_add(upnl) {
                Some(v) => v,
                None => {
                    return Err(ErrorCode::MathOverflow);
                },
            };
            total_margin = match total_margin.checked_add(margin) {
                Some(v) => v,
                None => {
                    return Err(ErrorCode::MathOverflow);
                },
            };
            marked_entries.push(PositionEntry { position: Position { unrealized_pnl: upnl, ..p }, ..e });
        }
        proof {
            assert(marked_entries@ =~= marked_all(es).take(i + 1));
        }
        i = i + 1;
    }
    assert(marked_entries@ =~= marked_all(es));
    let ghost marked_es = marked_entries@;
    proof {
        assert forall|j: int| 0 <= j < es.len() implies live(#[trigger] es[j]) == live(marked_es[j]) by {}
        lemma_live_sum_agree(marked_es, es, es.len(), realized_term(), pnl_term());
        lemma_live_sum_agree(marked_es, es, es.len(), released_term(), released_term());
        lemma_live_sum_agree(marked_es, es, es.len(), exit_term(), exit_term());
        lemma_negated_sum(es, es.len());
    }
    let old_upnl = participant.unrealized_pnl;
    let old_margin = participant.used_margin;
    participant.unrealized_pnl = total_upnl;
    participant.used_margin = total_margin;
    let equity = participant.virtual_balance as i128 + total_upnl as i128;
    if equity < 0 {
        match liquidate_participant_positions(participant, &mut marked_entries, now) {
            Ok(()) => {},
            Err(err) => {
                participant.unrealized_pnl = old_upnl;
                participant.used_margin = old_margin;
                return Err(err);
            },
        }
    }
    *entries = marked_entries;
    Ok(())
}

proof fn lemma_negated_sum(es: Seq<PositionEntry>, n: nat)
    requires
        n <= es.len(),
    ensures
        live_sum(es, n, released_term()) == -live_sum(es, n, margin_term()),
    decreases n,
{
    if n > 0 {
        lemma_negated_sum(es, (n - 1) as nat);
    }
}

} // verus!
