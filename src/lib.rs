//! A small request server built around a fixed-size worker pool.
//!
//! `pool` holds the dispatch core: the job queue, the worker states and the
//! shutdown rules. `http` parses requests and `server` decides how each one is
//! answered. Threads, sockets and files are left to the program that uses them.

pub mod error;
pub mod http;
pub mod pool;
pub mod server;
