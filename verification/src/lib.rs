//! A tiny scripting language for driving a character-cell terminal: a
//! context-sensitive tokenizer, a flat variable store, and an interpreter that
//! turns each token into the next store and one action for the display.

pub mod error;
pub mod interpreter;
pub mod lexer;
pub mod number;
pub mod script;
pub mod store;
pub mod token;
