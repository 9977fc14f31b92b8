//! The core of a state machine DSL, with its contracts proved: the parser of
//! a definition, and the planner of the code generated for it.

pub mod tokens;
pub mod verdicts;
pub mod transition;
pub mod state_machine;
pub mod parse_laws;
pub mod parsed;
pub mod codegen;
pub mod codegen_laws;
pub mod outside;
