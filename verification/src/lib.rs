//! A small interpreter for a postfix ("reverse Polish") arithmetic language:
//! a lexer that turns text lines into typed tokens, and a stack-machine
//! evaluator that interprets those tokens against persistent variable and
//! function memories.
//!
//! The evaluator never performs floating-point computation itself: whenever a
//! numeric result is needed it hands the operand texts to its caller as a
//! [`parse::Request`] and continues once the caller answers with a
//! [`parse::Reply`].  Everything else - dispatch, the evaluation stack, the
//! memories, function splicing and error signalling - is specified and
//! verified here.

pub mod laws;
pub mod lexer;
pub mod model;
pub mod parse;
pub mod table;
pub mod text;
