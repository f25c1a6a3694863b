//! Core of an input-method watchdog: on every polling tick it fuses the
//! focused process, the current input-method reading, manual-override
//! tracking and cursor-movement evidence into a single switch/no-switch
//! decision, and maintains the surrounding state (focus snapshot, per-process
//! override set, notification debounce record, configuration drafts).
//!
//! Everything that touches the operating system — window enumeration, the
//! input-method toggle itself, timers, persistence — lives outside this
//! crate; the functions here work on plain values and carry contracts for
//! every rule they implement.

mod clock;
pub mod config;
pub mod process;
pub mod state;
pub mod ime;
pub mod monitor;
pub mod text;
pub mod tray;
pub mod version;
