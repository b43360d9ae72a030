//! Real-time parameter hot-swap pipeline for a networked audio effect.
//!
//! Control datagrams are decoded into parameter update events, handed from the
//! control thread to the render thread through a fixed-capacity event ring, and
//! applied by the render step at most one per audio period.

pub mod event;
pub mod wire;
pub mod extract;
pub mod ring;
pub mod control;
pub mod render;
pub mod device;
