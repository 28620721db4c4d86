//! A verified interpreter for the classic eight-instruction tape language.
//!
//! The crate contains a simple virtual machine able to run such code
//! directly, together with the lexer and translator that prepare program
//! source for it. The machine's behaviour is pinned down by a small-step
//! mathematical semantics, and every stage carries a proved contract.

pub mod parser;
pub mod translator;
pub mod vm;
