//! A verified URL-shortening core.
//!
//! The crate holds the logic of a small link-shortening service: validation
//! of incoming URLs, random six-character code generation, an in-memory
//! mapping store with uniqueness invariants, lookup-or-create shortening,
//! code resolution, and QR-image rendering built on outside encoders.

pub mod codegen;
pub mod qr;
pub mod service;
pub mod store;
