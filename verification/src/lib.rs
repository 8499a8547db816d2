//! A compiler from Turing machine descriptions to succinct combinator
//! programs that certify an n-step execution trace.
//!
//! Given a transition relation ([`machine::Machine`]), a configuration
//! encoding ([`computation::Computation`]) and a step count, the
//! [`Verifier`] emits one combinator term ([`term::Term`]) whose
//! execution validates a whole trace, handed in as witness values.  Every
//! term carries a content commitment computed by the Simplicity engine's
//! rules; pruned branches are replaced by pinned placeholder commitments,
//! pairwise distinct so a failing run names its checkpoint.

pub mod cmr;
mod compiler;
pub mod computation;
pub mod encoding;
pub mod eval;
pub mod jet;
pub mod machine;
pub mod term;
pub mod util;
pub mod value;

pub use compiler::CompileConfigError;
pub use compiler::Verifier;
