//! Core of a segmented download manager.
//!
//! A download is split into contiguous byte ranges that are fetched side
//! by side. This crate holds everything about such a download that can be
//! decided without touching the network or the disk, and states each
//! decision as a contract that Verus checks:
//!
//! * [`download::plan`] splits a resource into ranges and proves that the
//!   ranges tile it;
//! * [`download::task`] keeps the byte counters, the rate and the state of
//!   a download;
//! * [`download::transfer`] holds what the units that talk to the server
//!   decide: the range header, the judgement of a status, the size that a
//!   server reports, the retry of a failed segment and the sum of the
//!   bytes that arrive;
//! * [`download::manager`] is the registry of tasks with admission
//!   control, pause, resume, cancel and finalization;
//! * [`network`] sorts the failures of plain HTTP requests;
//! * [`text`] reads and writes decimal numbers and takes a file name from
//!   a path;
//! * [`bridge`] holds the calls into the standard library and into other
//!   crates, whose contracts are stated without proof.
//!
//! The manager performs no I/O. A caller drives a download through it:
//! `start_task` decides on admission and names the address to ask for the
//! size; `content_length` reads the size from the answer; `begin_download`
//! records it and hands out the plan; `activate` counts the task as
//! running once its workers are set up; `report_progress` folds in what
//! the workers deliver; `finalize` and `complete` settle the outcome when
//! the workers have ended. `pause_task`, `resume_task` and `cancel_task`
//! may come in between.

pub mod bridge;
pub mod download;
pub mod network;
pub mod text;
