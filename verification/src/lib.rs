//! Client-side construction of typed deploy arguments and execution targets.
//!
//! This crate turns free-form command-line text such as `name:u64='42'` into
//! strongly typed, binary-encodable named arguments, resolves the mutually
//! exclusive "where does the code come from" options into one canonical
//! execution target, and assembles both into the immutable parameter set a
//! deploy is built from.  All parsing, encoding and resolution logic is
//! verified; network transport, file access and signing are left to callers.
//!
//! The whole interface works on bytes (`Vec<u8>`, `&[u8]`) rather than
//! `str`: every delimiter of the argument grammar is ASCII, so splitting
//! at the byte level is UTF-8 safe, and string payloads enter the wire
//! format as length-prefixed bytes anyway.  Callers hand text over with
//! `String::into_bytes`.

pub mod args;
pub mod bytes_le;
pub mod bytesutil;
pub mod decimal;
pub mod deploy;
pub mod errors;
pub mod help;
pub mod hex;
pub mod tags;
pub mod targets;
pub mod tokenize;
pub mod values;
