//! Decision logic of a sandboxed execution engine: typed configuration, the
//! error taxonomy, interpretation of captured output, and the supervision
//! state machine, each with a machine-checked contract.

pub mod interpret;
pub mod runtime;
pub mod sandbox;
pub mod supervisor;
pub mod text;
pub mod util;
