//! Query compilation: SIMD capabilities, plan optimisation and compiled
//! query caching.

pub mod simd;
pub mod plan;
pub mod compiler;
pub mod vectorizer;
pub mod optimizer;
pub mod cache;
pub mod profiler;
