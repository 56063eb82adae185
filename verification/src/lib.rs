//! Decoder for the `WRM2TEAM` binary team save format, and a JSON
//! renderer for the decoded value.
//!
//! The wire format is fixed-layout and big-endian: an 8-byte magic
//! signature, a tagged team-type field, five 16-bit counters, then
//! exactly eight roster records, each holding a NUL-terminated name
//! (padded with one extra byte when the name length is odd) and two
//! 16-bit counters. `decode` turns a byte buffer into a `Team`;
//! `json` renders a `Team` as a pretty-printed JSON document,
//! omitting roster slots whose name is empty.

pub mod decode;
pub mod json;
pub mod team;
