//! Instruments, trading universe, decisions, evidence references, positions
//! and opportunity ranking.

pub mod decisions;
pub mod error;
pub mod evidence;
pub mod instrument;
pub mod opportunities;
pub mod positions;
pub mod universe;
