//! Bebop: a cycle-level model of the Buckyball NPU, its memory system and
//! its software golden model, with the state machines of each unit stated
//! and proved over mathematical models.

pub mod arch;
pub mod buckyball;
pub mod builtin;
pub mod config;
pub mod message;
