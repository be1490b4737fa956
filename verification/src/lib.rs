//! A durable store of profile records: an identifier generator and an ordered
//! table, each in its own region of one backing memory.

pub mod codec;
pub mod laws;
pub mod record;
pub mod storage;
pub mod service;
pub mod store;
