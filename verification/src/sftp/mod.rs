pub mod browser;
