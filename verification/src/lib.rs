//! Bounded fan-out retrieval of course material.
//!
//! A list of courses is fetched once; for each course five kinds of material
//! are fetched independently; what was fetched for a course is assembled into
//! one record and handed to a renderer. This crate holds the decisions of that
//! pipeline and states them as verified contracts:
//!
//! - [`model`]: the course, the five categories, the fetched collection of
//!   one category, and the assembled record of one course;
//! - [`fetcher`]: what becomes of one fetch outcome, and the merge of the five
//!   outcomes of a course, in which a failure empties its own category only;
//! - [`job`]: the fetch job of one course, to which the categories are
//!   delivered in any order;
//! - [`aggregator`]: the assembly of a record from five collections;
//! - [`scheduler`]: which job to start next, so that never more jobs are in
//!   flight than a limit allows, and the order in which jobs are yielded;
//! - [`bridge`]: the rules by which a renderer's synchronous template
//!   functions get their values from network calls, fallbacks included;
//! - [`failure`]: which kinds of failure are absorbed and which end a run.
//!
//! The crate does no input or output. Its caller makes the network calls,
//! runs the jobs, renders and writes, and reports back what happened.

pub mod aggregator;
pub mod bridge;
pub mod failure;
pub mod fetcher;
pub mod job;
pub mod model;
pub mod scheduler;
