//! Input-resolution pipeline of a two-half split keyboard.
//!
//! The primary half owns the host connection; the secondary half scans its
//! own switch matrix and reports it over a point-to-point serial link. This
//! crate holds the verified core of that pipeline: the bit codec for the
//! wire format, the link-protocol state machine, the grid merge, and the
//! layered key-resolution engine. Hardware access (pins, UART, USB, timers)
//! lives outside, in the firmware shell that calls into this crate.

use vstd::prelude::*;

pub mod batch;
pub mod comms;
pub mod encoding;
pub mod engine;
pub mod grid;
pub mod layout;

verus! {

/// The rows of a rectangular array as a sequence of sequences.
pub open spec fn rows_view<T, const R: usize, const C: usize>(g: [[T; C]; R]) -> Seq<Seq<T>> {
    Seq::new(R as nat, |r: int| Seq::new(C as nat, |c: int| g[r][c]))
}

} // verus!
