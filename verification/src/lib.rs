//! Controller normalization: classify raw gamepad devices, correct them with
//! per-hardware quirk profiles (naming and button remaps), remap their events,
//! and combine freshly opened sources — including a detachable left/right pair
//! merged into one virtual controller — into the single logical controller the
//! user signals for with a button chord.
//!
//! Device nodes, the identity and topology description trees, channels and
//! threads live outside this crate; it works on the plain values read from
//! them, with event channels modelled as queues, and every function carries a
//! proved contract.

pub mod combine;
pub mod device;
pub mod event;
pub mod quirks_db;
pub mod remap;
pub mod sink;
pub mod strutil;
pub mod topology;

