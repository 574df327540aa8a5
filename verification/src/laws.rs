//! What the server's operations are for: what holds of their inputs and results,
//! whatever way they are carried out.

pub mod blocks;
pub mod catalogue;
pub mod documents;
pub mod finds;
pub mod hunks;
pub mod models;
pub mod requests;
pub mod settings;
pub mod texts;
pub mod values;
pub mod waits;
pub mod writes;
