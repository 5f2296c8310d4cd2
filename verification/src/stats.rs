//! Statistics over paired series.

pub mod correl;
