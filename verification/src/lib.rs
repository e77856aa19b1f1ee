//! Verified core of `tsa`, a command-line tool for managing a Tailscale
//! network: device and user matching, tag arithmetic, interactive selection
//! parsing, paging decisions, table layouts, API request construction, and
//! the device and user commands as state machines that change nothing
//! without the user's consent.

pub mod text;
pub mod clock;
pub mod models;
pub mod matching;
pub mod style;
pub mod tags;
pub mod selection;
pub mod pager;
pub mod table;
pub mod layouts;
pub mod commands;
pub mod api;
pub mod cli;
pub mod jobs;
pub mod user_jobs;
