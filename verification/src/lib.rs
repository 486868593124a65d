//! FillerKiller: crowd-sourced filler vs. canon voting for TV episodes.
use vstd::prelude::*;

pub mod scoring;
pub mod text;
pub mod order;
pub mod seo;
pub mod models;
pub mod db;
pub mod og;
pub mod error;
pub mod guides;
pub mod import;
pub mod oauth;
pub mod auth;
pub mod config;
pub mod tmdb;
pub mod handlers;

verus! {
}
