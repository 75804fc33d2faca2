//! A media library served over HTTP: path checks on client identifiers, the
//! track listing with its tag-reading fallback, the library page, the
//! decisions of the upload, delete and stream handlers, and the lifecycle of
//! the single server.

pub mod guard;
pub mod track;
pub mod html;
pub mod handlers;
pub mod lifecycle;
