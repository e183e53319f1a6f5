//! Declarative system configuration: the commands that bring a machine in line
//! with a description of its packages and users, and the order in which a
//! reconciliation run issues them.

pub mod cli;
pub mod config;
pub mod constants;
pub mod os;
pub mod sync;
pub mod table;
pub mod text;
pub mod traits;
pub mod utils;
