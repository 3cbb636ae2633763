//! Triangular arbitrage on a spot exchange: order-book simulation, opportunity search,
//! order preparation and the trade sequencing rules.
pub mod decimal;
pub mod decimal_order;
pub mod symbol_map;
pub mod config;
pub mod market_data;
pub mod arbitrage;
pub mod text;
pub mod execution;
