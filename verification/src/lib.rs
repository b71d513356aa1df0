//! Entropy sampled from live media streams, behind an access-control guard.
//!
//! The library covers the logic of the service: sampling values out of a
//! fetched byte buffer, keeping a catalog of stream sources and rotating away
//! from a source that looks frozen, resolving a playlist manifest to the
//! current segment URL, and gating every request either by a stored API key
//! or by a per-IP rate limit. Network and database traffic stay with the
//! caller; the functions here take and return plain values.

pub mod color;
pub mod frame;
pub mod key;
pub mod manifest;
pub mod rate;
pub mod rotation;
pub mod sampler;
