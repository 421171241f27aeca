pub mod colors;
pub mod events;
pub mod grid;
pub mod k8s;
pub mod keys;
pub mod ssh;
pub mod ssm;
