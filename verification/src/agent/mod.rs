//! The agent: its configuration, its loop, and what the loop works with.

pub mod agent_laws;
pub mod builder;
pub mod count_laws;
pub mod error;
pub mod event;
pub mod external_command;
pub mod flow_laws;
pub mod hook;
pub mod outcome_laws;
pub mod permission;
pub mod run_laws;
pub mod run_loop;
pub mod session;
pub mod step_laws;
pub mod stop;
pub mod tool;
pub mod tool_run;
pub mod turn;
pub mod turn_laws;
