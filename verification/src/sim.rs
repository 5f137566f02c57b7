//! The hardware-free side: a protocol decoder that reconstructs chip state
//! and video memory from observed pin transitions, and the small peripheral
//! models around it.

pub mod lcd;
pub mod led;
pub mod replay;
