//! Rows of the server's database.

pub mod session;

pub use session::Session;
