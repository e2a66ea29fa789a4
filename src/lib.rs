//! Layout, telemetry state and draw-list construction for a live
//! neural-network training dashboard.
//!
//! Everything here works on whole pixels and on fixed-point values
//! (`UNIT` stands for 1.0); turning draw lists into pixels on a window is
//! left to the program that hosts the library.
use vstd::prelude::*;

pub mod bitmap;
pub mod diagram;
pub mod draw;
pub mod graph;
pub mod gui;
pub mod history;
pub mod layout;
pub mod plot;
pub mod section;
pub mod widget;

verus! {

/// The fixed-point value that stands for 1.0.
pub const UNIT: i64 = 1_000_000;

} // verus!
