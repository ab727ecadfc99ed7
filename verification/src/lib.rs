/// The syntax tree.
pub mod ast;
/// The scopes of a run.
pub mod environment;
/// Records of reported errors.
pub mod error;
/// The grammar, as mathematics.
pub mod grammar;
/// The evaluator.
pub mod interpreter;
/// The front end, from a source text to a resolved program.
pub mod lox;
/// The evaluator's steps, as mathematics.
pub mod machine;
/// The parser.
pub mod parser;
/// The static pass that finds the scope of every name.
pub mod resolver;
/// The scanner.
pub mod scanner;
/// Texts of values and errors.
pub mod text;
/// Tokens.
pub mod token;
/// Values, functions, classes and instances.
pub mod value;
