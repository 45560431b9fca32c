//! Order lifecycle service core: a verified row codec between domain orders
//! and their column-family/qualifier representation in a wide-column store,
//! a verified JSON codec for lifecycle events, and the transition/consumption
//! logic that drives both through narrow store and bus capabilities.

pub mod consumers;
pub mod errors;
pub mod hbase;
pub mod hbase_utils;
pub mod json;
pub mod orders;
pub mod producers;
pub mod text;
pub mod utils;
pub mod workers;
