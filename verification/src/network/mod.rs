//! Errors and checks of plain HTTP requests.

pub mod client;
pub mod error;

pub use error::NetworkError;
