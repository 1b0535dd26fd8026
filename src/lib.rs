//! A compiler for a small postfix stack language: source text is parsed into
//! an [`Ast`], which is translated into an [`Asm`] model of x86-64 assembly
//! for NASM, written out as text by [`Asm::into_assembly`].
use vstd::prelude::*;

pub mod assembly;
pub mod ast;
pub mod chars;
pub mod error;
pub mod guarantees;
pub mod labels;
pub mod numeral;
pub mod parser;
pub mod runtime;
pub mod templates;
pub mod translator;

pub use assembly::{Asm, Instruction, Mnemonic, Operand, Reg, Section, Symbol};
pub use ast::{Ast, SpecTerm, Term};
pub use error::{CompilerError, Wanted};
pub use labels::LabelGenerator;
pub use parser::parse;
pub use runtime::make_std_lib;
pub use translator::translate;

verus! {

} // verus!
