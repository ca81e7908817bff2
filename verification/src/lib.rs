//! Archives a fixed set of web pages under one origin: each target page is
//! fetched, stored in a run-stamped directory tree, scanned for asset
//! references inside a delimited content region, and summarized in a run
//! report.  This crate holds the verified core: the byte scanner, the path
//! arithmetic, the configuration and target parsing, the report
//! serialization, and the per-run state machine that sequences them.  The
//! HTTP transport and the filesystem calls live outside, driven by the
//! actions the state machine hands out.

pub mod strutil;
pub mod numfmt;
pub mod scanner;
pub mod clock;
pub mod config;
pub mod target;
pub mod storage;
pub mod report;
pub mod assets;
pub mod orchestrator;
