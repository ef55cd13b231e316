//! Translation of control-flow graphs into Petri nets.
//!
//! The library walks the control-flow graphs of a program, starting at its entry
//! function, and builds a Petri net whose reachable markings stand for the possible
//! interleavings of the program's threads. Mutexes, threads, condition variables and
//! shared-handle wrappers receive dedicated net fragments.
//!
//! - [`control_flow`] holds the program as the translation reads it.
//! - [`petri_net_interface`] holds the net, which is built with the `netcrab` crate.
//! - [`naming`] gives every place and transition its label.
//! - [`translator`] walks the program and builds the net. Its `model` submodule says
//!   what the net of a program is.
//! - [`token_game`] says how the transitions of a net fire.
//! - [`stack`] and [`error_handling`] hold the call stack and the errors.

pub mod control_flow;
pub mod error_handling;
pub mod naming;
pub mod petri_net_interface;
pub mod stack;
pub mod token_game;
pub mod translator;
