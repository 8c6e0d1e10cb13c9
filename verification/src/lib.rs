//! A counter whose write authority can move between a base-layer ledger and
//! an ephemeral rollup.
//!
//! The crate decodes instructions, validates the accounts they come with,
//! applies counter updates to the account storage and produces the requests
//! that hand authority over to the rollup, schedule a commit back to the base
//! layer, or return authority to it. Carrying those requests out is left to
//! the host; the crate decides what is asked for and what follows from the
//! answer.

pub mod account;
pub mod address;
pub mod codec;
pub mod error;
pub mod instructions;
pub mod processor;
pub mod requests;
pub mod states;
