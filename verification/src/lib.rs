//! The verified core of an ORE mining pool server.

pub mod bus;
pub mod bytes;
mod chance;
pub mod dispatch;
pub mod fee;
pub mod handler;
pub mod instruction;
pub mod jito;
pub mod ore_utils;
pub mod proof_account;
pub mod registry;
pub mod rounding;
pub mod solution;
pub mod startup;
pub mod submit;
pub mod wire;
