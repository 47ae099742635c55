//! A dashboard for dogstatsd metrics.
pub mod app;
pub mod charts;
pub mod clock;
pub mod config;
pub mod details;
pub mod dogstatsd;
pub mod geometry;
pub mod ingest;
pub mod metrics;
pub mod navigation;
pub mod numbers;
pub mod numeric;
pub mod order;
pub mod render;
pub mod screen;
pub mod series;
pub mod text;
pub mod viewport;
