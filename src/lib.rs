//! Front end of a small language: a lexer from source text to tokens and a
//! recursive-descent parser from tokens to a syntax tree of modules,
//! functions, blocks, variables and expressions.
pub mod token;
pub mod words;
pub mod lexer;
pub mod parser_error;
pub mod token_stream;
pub mod context;
pub mod ast;
pub mod grammar;
pub mod expression;
pub mod statement;
pub mod block;
pub mod functions;
pub mod modules;
pub mod parser;
pub mod laws;
pub mod roundtrip;
pub mod printing;
pub mod reparse;

pub use ast::{Arg, Ast, Block, Expression, Function, Import, Module, Statement, TypeInfo, Variable};
pub use block::BlockParser;
pub use context::{ParserContext, ParserState};
pub use expression::ExpressionParser;
pub use functions::FunctionParser;
pub use lexer::{Lexer, LexerError};
pub use modules::ModuleParser;
pub use parser::Parser;
pub use parser_error::ParserError;
pub use statement::{StatementParser, VariableParser};
pub use token::{Keyword, Literal, Operator, Token};
pub use token_stream::TokenStream;
