//! A verified core for a Python interpreter: the parser, and the frames that run compiled code.
//!
//! Source text goes through the [`lexer`] and the parser proper, [`python`], to a tree of the
//! [`ast`]; [`parser`] offers that from text to tree. What the tokens of a text are is said in
//! [`lexical`], and what they are parsed as in [`grammar`].
//!
//! A [`frame`] runs [`bytecode`] on a machine, [`vm`]. What a run means is said in [`semantics`].
//! A machine that answers from a list stands in [`replay`].
//!
//! What holds of all runs is proved in [`laws`], [`instruction_laws`] and [`run_laws`]. What holds
//! of all texts is proved in [`syntax_laws`] and [`source_laws`], with [`token_laws`] for the way
//! from characters to tokens, [`operator_laws`], [`expression_laws`], [`statement_laws`] and
//! [`refusal_laws`] for the way from tokens to trees, and [`model_laws`] for the trees themselves.
pub mod ast;
pub mod bytecode;
pub mod expression_laws;
pub mod frame;
pub mod grammar;
pub mod instruction_laws;
pub mod laws;
pub mod lexer;
pub mod lexical;
pub mod location;
pub mod model_laws;
pub mod operator_laws;
pub mod parser;
pub mod pyobject;
pub mod python;
pub mod refusal_laws;
pub mod replay;
pub mod run_laws;
pub mod semantics;
pub mod source_laws;
pub mod statement_laws;
pub mod syntax_laws;
pub mod text;
pub mod token;
pub mod token_laws;
pub mod vm;
