//! Decisions of a delta-neutral funding-rate bot that trades on two venues.
#![allow(unused_imports)]

pub mod amount;
pub mod bot;
pub mod clock;
pub mod close;
pub mod http;
pub mod live;
pub mod open;
pub mod order;
pub mod reconcile;
pub mod rest;
pub mod rounding;
pub mod run;
pub mod state;
pub mod status;
pub mod symbols;
pub mod text;
pub mod types;
