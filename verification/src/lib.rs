//! Verified core of a Debian-style package pool builder: URL template
//! resolution, canonical pool filename and destination derivation (with
//! architecture inference), per-item download aggregation with failure
//! isolation, and matching of pool files against a manifest.
pub mod dest;
pub mod direct;
pub mod error;
pub mod misc;
pub mod strings;
pub mod template;
