pub mod account_storage;
pub mod in_memory_account;
