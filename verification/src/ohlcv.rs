//! Indicators over price/volume (OHLCV) series.

pub mod ad;
pub mod adosc;
pub mod adr;
pub mod rocp;
pub mod wma;
pub mod ema;
pub mod ha;
pub mod sma;
