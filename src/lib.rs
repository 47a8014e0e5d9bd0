//! Accounting core of a leveraged paper-trading competition: fixed-point
//! prices and notionals, position open/close, participant margin recompute with
//! forced liquidation, and bounded top-K leaderboards.

pub mod admin;
pub mod errors;
pub mod leaderboard;
pub mod league;
pub mod math;
pub mod oracle;
pub mod participant;
pub mod position;
pub mod state;
