//! A worker-pool library together with a collection of small verified
//! utilities: text search, input validation, quota tracking, and simple
//! arithmetic helpers.
//!
//! The centrepiece is [`pool`]: a fixed-size pool of workers that drain a
//! shared queue of work items, with verified delivery and shutdown
//! guarantees.

pub mod addition;
pub mod aggregator;
pub mod animals;
pub mod arith;
pub mod boxes;
pub mod coins;
pub mod colors;
pub mod functional;
pub mod grep;
pub mod guessing;
pub mod gui;
pub mod http;
pub mod listdemo;
pub mod pool;
pub mod rectangles;
pub mod scan;
pub mod shoes;
pub mod text;
pub mod timing;
pub mod tracker;
