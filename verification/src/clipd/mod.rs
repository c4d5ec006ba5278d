//! The clipboard daemon: the set of pinned entries, blob garbage
//! collection and the session's handling of data-control events.
pub mod blobstore;
pub mod pin;
pub mod session;
