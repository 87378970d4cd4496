//! Signal generator core: configuration, signal payload layout, generator
//! registry, broker metrics, panel rendering, and the decisions of the
//! generator supervisor and of the MQTT connection.  Every function states
//! its result in its contract; the clock (chrono), id generation (uuid) and
//! two character operations of std are reached through small wrappers whose
//! contracts restate what those libraries document.
pub mod text;
pub mod config;
pub mod ui;
pub mod api;
pub mod supervisor;
pub mod clock;
pub mod models;
pub mod diagnostics;
pub mod broker;
pub mod history;
pub mod ws;
pub mod scenarios;
pub mod link;

pub use text::decimal_string;
