//! A persistent asset ledger.
//!
//! The ledger registers assets under numeric ids, keeps an append-only log
//! of what happened to them, and tracks token balances per owner and asset.
//!
//! - `magnitude` says how byte strings stand for numbers; `hex_text`,
//!   `decimal` and `principal_text` say how numbers and identities are
//!   written; `bigint` computes on numbers of any size.
//! - `types` holds identities, asset ids and account keys, `order` their
//!   equality and order, `key_laws` what holds between making a key and
//!   taking it apart.
//! - `records` and `codec` hold the stored records and their stored form.
//! - `store` holds the persistent maps and the log, `model` the ledger as a
//!   mathematical value, `ledger` the operations, and `ledger_laws` what
//!   holds across them.

pub mod bigint;
pub mod codec;
pub mod decimal;
pub mod error;
pub mod hello;
pub mod hex_text;
pub mod key_laws;
pub mod ledger;
pub mod ledger_laws;
pub mod magnitude;
pub mod model;
pub mod order;
pub mod principal_text;
pub mod records;
pub mod store;
pub mod types;
