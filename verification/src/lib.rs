//! Verified core of a single-table listing backend.
//!
//! The centrepiece is the dynamic listing query builder: it turns free-text
//! search, per-field filters with match modes, a single-column sort and
//! page/size parameters into a data statement and a count statement that
//! share one `WHERE` fragment, while keeping user-supplied text from breaking
//! out of the SQL string it is interpolated into. Around it sit the plain
//! request and row types of the service and the pure parts of its handlers;
//! everything that talks to the network or the database lives outside this
//! crate and hands plain values in.

pub mod biodata;
mod clock;
pub mod hello;
pub mod numfmt;
pub mod paging;
pub mod query;
pub mod quiz;
pub mod response;
pub mod sanitize;
