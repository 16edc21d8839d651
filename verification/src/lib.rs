//! The Spaces communication module: servers, channels, threads, messages,
//! reactions, direct messages and a role hierarchy, over an in-memory database
//! whose reducers are verified against their contracts.
use vstd::prelude::*;

pub mod auth;
pub mod cascade;
pub mod client;
pub mod commands;
pub mod db;
pub mod identity;
pub mod laws;
pub mod lifecycle;
pub mod lines;
pub mod ordering;
pub mod reducers;
pub mod rows;
pub mod tables;
pub mod types;
pub mod validation;
pub mod views;

verus! {

} // verus!
