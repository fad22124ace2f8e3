//! Message decoding, response encoding and duel bookkeeping for a
//! single-player practice client of the `ocgcore` duel engine.

pub mod bytes;
pub mod error;
pub mod constants;
pub mod collect;
pub mod data;
pub mod actions;
pub mod messages;
pub mod response;
pub mod memory;
pub mod query;
pub mod text;
pub mod custom_hand;
pub mod deck;
pub mod scripts;
pub mod state;
pub mod ocgcore;
pub mod hand;
