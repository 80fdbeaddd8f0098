//! Core logic of a wrist-worn display device: a wraparound-safe monotonic
//! clock, a bounded timer wait-queue multiplexing one hardware comparator,
//! a display-command serializer with DMA-bounded chunking, and a retained-mode
//! frame compositor with dirty-rectangle tracking.

use vstd::prelude::*;

pub mod battery;
pub mod display;
pub mod frame;
pub mod geom;
pub mod heap;
pub mod timer;
pub mod ui;
pub mod text;
pub mod time;

verus! {

} // verus!
