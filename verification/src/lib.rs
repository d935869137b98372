//! A sweep of a benchmark over a space of configurations, and the timing
//! measurements that each job of the sweep reports.
//!
//! A job runs as a process of its own and writes lines of diagnostic
//! output while it works. Some of these lines carry a measurement. This
//! library decides what such a line says ([`extract`]), what a job comes
//! to step by step as its output arrives and its process ends
//! ([`runner`]), which jobs a sweep is made of and in which order they are
//! run ([`sweep`]), and what the results of a sweep put into its two tables
//! ([`tabulate`]). Starting processes, reading their output and writing
//! files is left to the program around it.
//!
//! Times are kept exactly: a measurement is read off its decimal digits
//! ([`measure`]) into a span of whole seconds and nanoseconds
//! ([`duration`]); no floating point is involved.

pub mod clock;
pub mod config;
pub mod duration;
pub mod event;
pub mod extract;
pub mod measure;
pub mod pattern;
pub mod runner;
pub mod sweep;
pub mod tabulate;
pub mod text;
