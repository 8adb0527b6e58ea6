//! Endpoint handlers that come with the library.

pub mod chat;
pub mod file_upload;
pub mod secure;
pub mod test;
