//! A verified core for a small pipe-aware command shell.
//!
//! A line such as `ls -l | grep rs | wc` is cut into stages, each stage into
//! words, and an [`executor::Executor`] then decides, one step at a time, what
//! its driver has to do: spawn a program, change the working directory, wait
//! for a child, or put a child down again when the pipeline has to be given up.
//! The driver performs each action and answers with what came of it.
pub mod text;
pub mod lex;
pub mod lex_proofs;
pub mod stage;
pub mod report;
pub mod machine;
pub mod machine_proofs;
pub mod executor;
