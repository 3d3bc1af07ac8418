//! Verified core of the Nori bridge head: the decoding of the prover's
//! public values, the state kept between finality updates, and the
//! registry of event listeners.

pub mod event_dispatcher;
pub mod nori_bridge_head;
pub mod proof_outputs;

pub use event_dispatcher::{trigger_result, EventDispatcher, PrintListener1, PrintListener2};
pub use nori_bridge_head::{
    NoriBridgeCheckpoint, NoriBridgeHead, NoriBridgeHeadMode, StartPoint,
};
pub use proof_outputs::{ProofOutputsError, RustProofOutputs, Uint256};
