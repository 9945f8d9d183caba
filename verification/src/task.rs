//! What the cooperative tasks of the kernel decide: the command line and the
//! keyboard's side of it.

pub mod cli;
pub mod keyboard;
