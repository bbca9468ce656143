pub mod account;
pub mod ops;
pub mod tx_engine;
pub mod tx_processor;
pub mod types;
