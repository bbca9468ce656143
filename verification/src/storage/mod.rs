pub mod account;
pub mod account_storage;
pub mod in_memory_account;
pub mod tx;
