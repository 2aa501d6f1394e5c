pub mod account;
pub mod amount;
pub mod config;
pub mod crypto;
pub mod error;
pub mod gate;
pub mod ids;
pub mod json;
pub mod oauth;
pub mod sync;
pub mod token;
pub mod trans;
pub mod users;
