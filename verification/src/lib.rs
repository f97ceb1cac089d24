//! Thread-safe counters with different accuracy/performance trade-offs.
//!
//! The library provides four counter families:
//!
//! * [`generic::Counter`]: a generic counter over any type implementing
//!   [`generic::Inc`], protected by exclusive access.
//! * Exact primitive counters (`primitive::exact`): counters over fixed-width
//!   integers whose reads are always precise.
//! * Flushing counters (`primitive::fast`): per-thread accumulation with no
//!   automatic synchronization; exact only after every contributing thread
//!   has flushed.
//! * Approximate counters (`primitive::fast`): per-thread accumulation with
//!   threshold-triggered folding into the shared total; reads carry a
//!   quantified error bound at any time and are exact after a full flush.
//!
//! Every counter state is modelled explicitly: the shared total and the
//! per-thread cells are fields of the counter value, and exclusive access
//! (`&mut`) stands for the atomicity of each operation. Each public
//! operation carries a contract that pins the resulting state, and the
//! documented accuracy guarantees are proved as lemmas over those contracts.

pub mod generic;
pub mod modular;
pub mod primitive;
