pub mod credentials;
pub mod hierarchy;
pub mod manager;
pub mod models;
pub mod storage;
