//! An LNURL-pay bridge for a Lightning node: it validates requested amounts
//! against configured bounds, checks inbound Nostr zap-request events against
//! the protocol rules, prepares invoice descriptions, and decides, for each
//! settled invoice, whether and where a zap receipt is owed, keeping a durable
//! resume cursor.

pub mod amount;
pub mod invoice;
pub mod metadata;
pub mod rpcargs;
pub mod text;
pub mod watcher;
pub mod zap;
