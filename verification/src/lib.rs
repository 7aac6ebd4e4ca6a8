//! Verified core of a LAN chat and file-transfer application: framing,
//! identity/config rules, diagnostics, discovery bookkeeping, session
//! arbitration, group membership and the file-transfer state machine.

pub mod text;
pub mod frame;
pub mod diagnostics;
pub mod order;
pub mod sort;
pub mod discovery;
pub mod session;
pub mod protocol;
pub mod ids;
pub mod hashing;
pub mod config;
pub mod fsutil;
pub mod group;
pub mod table;
pub mod db;
pub mod transfer;
pub mod sound;
pub mod commands;
