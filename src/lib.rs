//! A multi-tab pseudo-terminal session manager.
//!
//! The tab table (`table`), the reader pump's decisions (`pump`), the choice
//! of shell (`shell`) and the reaction to a shell's exit (`exit`) are plain
//! logic. `session` holds each tab's pseudo-terminal (through `pty`) in the
//! table, resizes it, and hands out the byte endpoints (writer, child) that
//! the caller attached to the tab.

pub mod error;
pub mod exit;
pub mod pty;
pub mod pump;
pub mod session;
pub mod shell;
pub mod table;
