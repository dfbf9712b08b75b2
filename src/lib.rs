use vstd::prelude::*;

pub mod check;
pub mod document;
pub mod formula;
pub mod graph;
pub mod i;
pub mod laws;
pub mod outputs;
pub mod term;
pub mod unify;

pub use check::{ProofCheckError, ProofFailure};
pub use document::verify_proof;
pub use formula::N3Formula;
pub use graph::Graph;
pub use i::{I, I2, I2Content};
pub use outputs::{run, Outputs};
pub use term::{Literal, Term, Triple};
