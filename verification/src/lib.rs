use vstd::prelude::*;

pub mod text;
pub mod data;
pub mod ambient;
pub mod errors;
pub mod distributed;
pub mod security;
pub mod config;
pub mod api;
pub mod jit;
pub mod advanced;
pub mod enterprise;
pub mod engine;
pub mod backup;

verus! {

} // verus!
