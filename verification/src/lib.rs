//! Verified core of the RustDesk Plus management API.
use vstd::prelude::*;

pub mod admin;
pub mod agent;
pub mod audit;
pub mod auth;
pub mod builder;
pub mod catalog;
pub mod client;
pub mod dispatch;
pub mod error;
pub mod ids;
pub mod installer;
pub mod text;
pub mod ordered;
pub mod presence;
pub mod scripts;
pub mod setup;

verus! {

} // verus!
