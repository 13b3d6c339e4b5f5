//! A WebDAV protocol engine: the decisions that stand between an HTTP
//! transport and a filesystem or lock backend, stated and proved as
//! functions on plain values.

pub mod errors;
pub mod method;
pub mod davpath;
pub mod body;
pub mod response;
pub mod davhandler;
pub mod handle_mkcol;
pub mod handle_options;
