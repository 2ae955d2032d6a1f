//! Command line: the arguments and the choice of what to run.

pub mod args;
