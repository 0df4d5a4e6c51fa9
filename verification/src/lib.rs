//! Bookkeeping and decisions of a manual connector manager.
#![allow(unused_imports)]

pub mod attempt;
pub mod dash;
pub mod laws;
pub mod manager;
pub mod net;
pub mod order;
pub mod reconnect;
pub mod redirect;
pub mod rpc;
pub mod text;
pub mod types;
