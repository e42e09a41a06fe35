//! The rules of a small web service that shows the queue of a cluster's job
//! scheduler.
//!
//! The service runs the scheduler's query tool, reads the listing that the
//! tool writes, and answers with the jobs as JSON or as a page. This crate
//! holds every decision on that way, stated and proved over mathematical
//! models; running the tool and talking HTTP is left to the program around
//! it.
//!
//! - [`text`]: lines and separated fields of a text.
//! - [`strmap`]: the dictionary that records and tables are made of.
//! - [`table`]: from a listing to the table of its jobs.
//! - [`fallback`]: the jobs shown where the tool is not installed.
//! - [`query`]: the tool's arguments, and what to make of how it ended.
//! - [`response`]: the answer to a request.

pub mod fallback;
pub mod query;
pub mod response;
pub mod strmap;
pub mod table;
pub mod text;
