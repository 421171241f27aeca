use vstd::prelude::*;

pub mod agent;
pub mod bytes;
pub mod config;
pub mod doc;
pub mod ids;
pub mod keyed;
pub mod kubernetes;
pub mod matching;
pub mod session;
pub mod sftp;
pub mod state;
pub mod terminal;
pub mod text;
pub mod ui;

verus! {


} // verus!
