//! A small command interpreter: a line parser for pipelines with quoting
//! and redirections, and the decisions that run such a pipeline: how each
//! stage is wired and dispatched, how helper processes merge and spread
//! streams, and how started processes are collected.

use vstd::prelude::*;

pub mod builtins;
pub mod command;
pub mod error;
pub mod forker;
pub mod parser;
pub mod pipeline;
pub mod redirect;

verus! {

} // verus!
