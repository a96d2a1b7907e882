//! Bilateral mutual-credit channels between directly connected peers, and the
//! per-node router that moves payments across them.

pub mod async_adapter;
pub mod canonical;
pub mod crypto;
pub mod currency_map;
pub mod ephemeral;
pub mod index_server;
pub mod messages;
pub mod mutual_credit;
pub mod proto;
pub mod route;
pub mod router;
pub mod signature_buff;
pub mod token_channel;
pub mod types;
