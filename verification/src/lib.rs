//! Verified core of a framework for writing Wireshark dissectors in Rust.
//!
//! - [`types`]: the plain values that describe fields, encodings and expert infos.
//! - [`protocol`]: building a protocol description and recording the handles Wireshark
//!   assigns when it is registered.
//! - [`dissector`]: the packet buffer with its cursor, and where each item of the
//!   protocol tree goes.
//! - [`plugin`]: the protocols of a plugin and the dissector-table registrations that
//!   hand packets to them.
//! - [`plan`] and [`expand`]: what the code-generating macros decide, and the source
//!   text of `version!` and `protocol!`.
//! - [`codegen`]: the source text of `#[derive(Dissect)]` and `#[derive(Proto)]`.
//! - [`case`]: the snake, upper and title case spellings of identifiers.
//! - [`name_table`]: the string-keyed tables used throughout.

pub mod case;
pub mod codegen;
pub mod dissector;
pub mod expand;
pub mod name_table;
pub mod plan;
pub mod plugin;
pub mod protocol;
pub mod types;
