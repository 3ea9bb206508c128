//! A remote-execution orchestrator's core: a small language for tasks
//! (scripts with parameters) and plans (ordered task invocations), a
//! templating step that binds parameters into inline scripts, and the
//! protocol that runs the result against remote hosts — connection and
//! authentication choices, the `provides` and `unless` skip checks,
//! artifact upload, execution, exit-status capture and cleanup — fanned
//! out across named groups of targets.
//!
//! Parsing, templating and every protocol decision live here, with
//! their contracts; the I/O that carries them out (files, the network,
//! the terminal) stays with the caller, which drives the
//! [`protocol::RunMachine`] action by action.

use vstd::prelude::*;

pub mod inventory;
pub mod jsonargs;
pub mod params;
pub mod plan;
pub mod protocol;
pub mod render;
pub mod scan;
pub mod source;
pub mod strutil;
pub mod task;
pub mod transport;

pub use inventory::{default_transport, group_status, Config, Group, Inventory, RunSelection,
    SshConfig, Target};
pub use jsonargs::params_json;
pub use params::{parse_parameter, ParamMap};
pub use plan::{ExecutableTask, Plan, PlanEntry};
pub use protocol::{RunAction, RunEvent, RunMachine, RunState};
pub use render::render;
pub use task::{ParseError, Script, Task};
pub use transport::{auth_method, AuthMethod, Transport, TransportError};

verus! {

} // verus!
