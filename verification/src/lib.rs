//! Verified core of the trust runtime: access roles, pairing tokens, runtime-cloud
//! policy decisions, scheduling clocks, web IDE text helpers and console UI state.
use vstd::prelude::*;

pub mod text;
pub mod security;
pub mod cloud;
pub mod entropy;
pub mod pairing;
pub mod ide;
pub mod clock;
pub mod resource;
pub mod ui;
pub mod web;

verus! {
} // verus!
