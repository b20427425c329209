//! Watches Bitcoin output-descriptor wallets: resolves how to reach the full
//! node, links relevant blocks into a reorg-aware checkpoint chain, and turns
//! newly confirmed transactions into deposit and spend events.

pub mod network;
pub mod text;
pub mod sync;
pub mod events;
pub mod wallet;
pub mod conf;
pub mod credentials;
pub mod registry;
pub mod params;
