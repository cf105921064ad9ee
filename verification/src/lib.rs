//! Verified core of the Themefox theme manager for Firefox.
//!
//! The program that installs themes does its file, network and terminal work
//! outside this crate; every decision it takes, and every piece of text it
//! builds or reads, is computed here and carries a contract.

pub mod cli;
pub mod css;
pub mod frame;
pub mod json;
pub mod native_host;
pub mod number;
pub mod order;
pub mod plan;
pub mod profile;
pub mod release;
pub mod setup;
pub mod text;
pub mod theme_search;
