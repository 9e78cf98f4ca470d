//! A verified pipeline engine for an interactive command interpreter.
//!
//! A raw input line is parsed into pipeline stages separated by `|`;
//! each stage is a program name with its arguments.  The engine plans
//! the inter-stage channel wiring and supervises spawning, waiting and
//! failure cleanup; the unverified front end performs the actual
//! process and descriptor operations that the plan dictates.

pub mod parser;
pub mod session;
pub mod supervise;
pub mod text;
pub mod wiring;
