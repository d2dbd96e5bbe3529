//! Porta: projects and bounties behind a generic, verified store layer and a
//! method-keyed RPC dispatcher.
pub mod auth;
pub mod ctx;
pub mod dev_utils;
pub mod error;
pub mod json;
pub mod model;
pub mod response;
pub mod web;

pub use self::error::{Error, Result};
