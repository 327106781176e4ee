//! Transaction processing core of the `dgc_REST_api` ledger family.
//!
//! The crate validates and applies participant, table, record, property,
//! proposal and coin-ledger transactions against a keyed store of byte blobs.
//! Every executable function carries a contract over a mathematical model of
//! the store and of the entities kept in it.
//!
//! * [`addressing`] gives every entity its address in the store.
//! * [`wire`] and [`codec`] turn values into bytes and back; [`participant`],
//!   [`schema`], [`value`], [`property`], [`record`], [`proposal`] and
//!   [`payload`] hold the entities and payloads with their models.
//! * [`text`], [`order`] and [`container`] keep the entities that share an
//!   address in order, one entry for a key.
//! * [`state`] is what a transaction reads and writes.
//! * [`handler`] reads a payload and carries out its action; the actions are
//!   in [`registry`], [`records`], [`values`], [`updates`], [`proposals`],
//!   [`answers`], [`reporters`] and [`ledger`].
//! * [`validity`], [`preservation`], [`ring`], [`creation`], [`replay`] and
//!   [`laws`] state and prove what holds of every state and every
//!   transaction.

pub mod addressing;
pub mod answers;
pub mod codec;
pub mod container;
pub mod creation;
pub mod error;
pub mod handler;
pub mod laws;
pub mod ledger;
pub mod order;
pub mod participant;
pub mod payload;
pub mod preservation;
pub mod property;
pub mod proposal;
pub mod proposals;
pub mod record;
pub mod records;
pub mod registry;
pub mod replay;
pub mod reporters;
pub mod ring;
pub mod schema;
pub mod state;
pub mod text;
pub mod updates;
pub mod validity;
pub mod value;
pub mod values;
pub mod wire;
