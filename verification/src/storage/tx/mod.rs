pub mod in_memory_tx;
pub mod tx_storage;
