//! An interpreter for a small line-oriented scripting language of keyphrases.
//!
//! Each source line is split into tokens (`lexer`), fed one token at a time to
//! a statement machine (`parser`) that acts on the interpreter's state
//! (`program`): typed three-slot pages (`page`) of values (`variant`), a
//! drawer and a floor of torn-out pages, a memory slot, and a cauldron
//! (`cauldron`) that folds pages together and drives skipping ahead and jumping
//! back. Floating-point work, console input and chance come from a caller's
//! `host` function.
use vstd::prelude::*;

pub mod cauldron;
pub mod errors;
pub mod host;
pub mod lexer;
pub mod page;
pub mod parser;
pub mod program;
pub mod text;
pub mod variant;

verus! {

} // verus!
