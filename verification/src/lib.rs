//! The HULK compiler front end: tokens, the syntax tree, the LL(1) parser,
//! macro pattern matching, semantic analysis (types, environment, registry,
//! diagnostics, the hierarchy pass), and what code generation asks of them:
//! layout queries, the scope stack, options and errors.
pub mod ast;
pub mod codegen;
pub mod layout;
pub mod name_map;
pub mod parser;
pub mod pattern;
pub mod runtime;
pub mod scope;
pub mod semantic;
pub mod subset_ast;
pub mod text;
pub mod token;
