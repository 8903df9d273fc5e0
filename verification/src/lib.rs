//! Timestamp-format compiler and detector for log lines.
//!
//! A small format expression such as `"DD-MM-YYYY hh:mm:ss.s TZD"` is parsed
//! into field tokens, compiled into a matchable pattern with named fields,
//! matched (unanchored) against a log line, and resolved into a normalized
//! POSIX timestamp in milliseconds, with caller-supplied fallbacks for a
//! missing year or timezone offset.  A registry of candidate expressions
//! drives automatic format detection for unlabeled lines and files.

pub mod errors;
pub mod pieces;
pub mod parser;
pub mod pattern;
pub mod matcher;
pub mod calendar;
pub mod resolver;
pub mod detector;
