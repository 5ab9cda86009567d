//! Verified core of an SMB/CIFS file-share client: URL parsing, server
//! addressing, connection reuse, and the decisions taken around each
//! file operation.
pub mod text;
pub mod address;
pub mod url;
pub mod info;
pub mod session;
pub mod ops;
