//! RF-Rig: the verified core of a circuit-level guitar pedalboard.
//!
//! The board is a chain of seven pedals in whatever order their `position`
//! parameters describe, and its whole state is one block of parameters. This
//! crate holds the rules around that state: the parameter contract and the
//! factory boards, the order the chain runs in, the serialised layout and its
//! migrations, the delay-line bookkeeping the time-based pedals share, the
//! memory block they borrow, the adapter's automation schedule, and the
//! bench's manifest and command-line readers. The audio arithmetic itself
//! lives with the host adapter.

pub mod contract;
pub mod delay;
pub mod dsp;
pub mod index;
pub mod lab;
pub mod manifest;
pub mod metadata;
pub mod pedal;
pub mod preset;
pub mod processor;
pub mod state;
pub mod text;
pub mod workspace;

pub use contract::{PARAMETER_COUNT, PREVIOUS_PARAMETER_COUNTS};
pub use pedal::{chain_order, PEDAL_COUNT};
pub use preset::PRESET_COUNT;
pub use state::STATE_BYTES;
pub use workspace::{Workspace, WORKSPACE_SAMPLES};
