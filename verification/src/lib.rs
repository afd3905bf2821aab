//! Host-side control shim for a separately built native real-time kernel.
//!
//! The interesting surface of this crate is the binding layer around the
//! kernel library: validating and encoding a configuration request, the
//! lifecycle of the process-wide console registry, and the exact shape of
//! the console lines the bridge emits for partition output.

pub mod console;
pub mod controller;
pub mod errors;
