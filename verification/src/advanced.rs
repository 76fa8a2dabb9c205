//! Multi-model features: time series, graphs, vectors and the functions
//! callable from SQL.

pub mod timeseries;
pub mod graph;
pub mod ai_functions;
pub mod analytics;
