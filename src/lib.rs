//! A newsletter subscription service: the logic of its request handlers, of its
//! configuration, and of the harness that gives each integration test a database of its own.
pub mod config_file;
pub mod configuration;
pub mod form;
pub mod handlers;
pub mod harness;
