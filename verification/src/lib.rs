//! Per-player TPS boss bar plugin logic: metric severities, settings checks,
//! localized messages, persisted per-player choices and boss bar bookkeeping.
pub mod metrics;
pub mod config;
pub mod text;
pub mod i18n;
pub mod state;
pub mod display;
pub mod runtime;
pub mod save;
