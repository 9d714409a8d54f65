//! Market-data command-line library: request planning, input validation,
//! configuration precedence and calendar arithmetic for the Stockbit, Yahoo
//! Finance and IDX endpoints.

pub mod api;
pub mod calendar;
pub mod cli;
pub mod client;
pub mod config;
pub mod error;
pub mod http;
pub mod idx;
pub mod output;
pub mod retry;
pub mod stored_config;
pub mod text;
pub mod util;
pub mod yahoo;
