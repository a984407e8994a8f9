//! Global selection capture and toolbar arbitration engine.
//!
//! The library holds the decision logic of a desktop "select text anywhere,
//! get a floating toolbar" feature: text normalization and validation, the
//! provider chain that extracts a selection, the monitor state machine with
//! its debounce / concurrency / dedupe guards, the toolbar gating state with
//! lazy temporary-disable expiry and ignored-application matching, the hotkey
//! bypass path, release-update classification and selection, proxy
//! configuration resolution, and base64 decoding.
//!
//! Everything operating-system bound (input hooks, accessibility calls,
//! window management, networking, the clock) stays outside; the functions
//! here take plain values and return decisions.

pub mod base64;
pub mod monitor;
pub mod providers;
pub mod proxy;
pub mod text;
pub mod toolbar;
pub mod update;
pub mod updater;
pub mod version;
