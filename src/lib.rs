//! Supervision of one long-running child server process: port reclamation,
//! resolution of the interpreter and working directory, tracking of at most
//! one live process, bounded readiness polling, and the start sequence that
//! ties them together. The operating-system and network work is done by the
//! caller, which hands the results to these functions as plain values.
use vstd::prelude::*;

pub mod health;
pub mod prober;
pub mod reclaim;
pub mod resolver;
pub mod start;
pub mod supervisor;

verus! {

} // verus!
