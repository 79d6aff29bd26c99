//! The vault program's logic: instruction set, errors, account layouts, the
//! messages a spend signs, and the checks and state changes of each instruction.

pub mod error;
pub mod layout;
pub mod message;
pub mod pda;
pub mod account;
pub mod processor;
pub mod laws;
pub mod lifecycle;
