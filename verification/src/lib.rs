//! Daily water-intake tracking with a reminder schedule.
//!
//! `models` holds the intake ledger: today's records, the days before it and
//! the figures derived from them. `loading` builds a ledger from what was
//! stored, and `validity` tests whether a ledger is well formed.
//! `notification` holds the reminder configuration and the decisions of the
//! reminder loop. `input` reads an amount that the user typed. `storage`
//! names the files in which settings and days are kept. `clock` reads the
//! wall clock. `tray` holds the commands of the tray menu and its icon.

pub mod clock;
pub mod input;
pub mod loading;
pub mod models;
pub mod notification;
pub mod storage;
pub mod tray;
pub mod validity;
