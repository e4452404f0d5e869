//! The verified core of rosa, a terminal client for the chat of zinro.net.
use vstd::prelude::*;

pub mod api;
pub mod app;
pub mod display;
pub mod json;
pub mod laws;
pub mod text;

verus! {

} // verus!
