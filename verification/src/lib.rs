use vstd::prelude::*;

pub mod text;
pub mod model;
pub mod cache;
pub mod error;
pub mod config;
pub mod help;
pub mod json;
pub mod logging;
pub mod providers;
pub mod urls;
pub mod service;
pub mod budget;
pub mod flow;
pub mod doctor;
pub mod events;
pub mod sources;

verus! {
} // verus!
