use vstd::prelude::*;
use crate::ast::Stmt;
use crate::error::ErrorReporter;
use crate::grammar::{program, stmt_models, ProgramModel};
use crate::parser::{mistakes, Parser, ParserError};
use crate::resolver::{initial, resolved_stmts, Resolver, ResolverError, SideTable};
use crate::scanner::{scan, ScanError, Scanner};

verus! {

/// Why a source text cannot be run.
#[derive(Debug, Clone, Copy, PartialEq, Eq, Structural)]
pub enum LoxError {
    Scan(ScanError),
    Resolve(ResolverError),
}

/// A source text made ready to run: the statements that parsed, the
/// resolver's distances for them, and the errors of the declarations that
/// did not parse.
pub struct Program {
    pub statements: Vec<Stmt>,
    pub locals: SideTable,
    pub errors: Vec<ParserError>,
}

impl View for Program {
    type V = ProgramModel;

    open spec fn view(&self) -> ProgramModel {
        ProgramModel { statements: stmt_models(&self.statements), errors: mistakes(self.errors@) }
    }
}

/// What the front end makes of a source text: the program that its tokens
/// parse to, with the distances that resolving its statements records; or
/// the error that scanning or resolving stops with.
pub open spec fn prepared(source: Seq<char>) -> Result<(ProgramModel, Map<usize, usize>), LoxError> {
    match scan(source) {
        Err(e) => Err(LoxError::Scan(e)),
        Ok(tokens) => {
            let parsed = program(tokens);
            match resolved_stmts(initial(), parsed.statements, parsed.statements.len()) {
                Ok(state) => Ok((parsed, state.locals)),
                Err(e) => Err(LoxError::Resolve(e)),
            }
        },
    }
}

/// The front end: from a source text to a program that an interpreter can run.
pub struct Lox {
    pub reporter: ErrorReporter,
}

impl Lox {
    /// A front end that has reported no error.
    pub fn new() -> (lox: Self)
        ensures
            !lox.reporter.had_error,
            !lox.reporter.had_runtime_error,
    {
        Lox { reporter: ErrorReporter::new() }
    }

    /// Scans, parses and resolves a source text. A text that does not scan,
    /// or whose parsed statements do not resolve, gives that error, and the
    /// reporter remembers it; syntax errors are kept beside the statements
    /// that parsed, and the reporter remembers them too.
    pub fn run(&mut self, source: String) -> (result: Result<Program, LoxError>)
        ensures
            match prepared(source@) {
                Ok((parsed, locals)) => result matches Ok(ready) && ready@ == parsed && ready.locals@
                    == locals,
                Err(e) => result matches Err(error) && error == e,
            },
            final(self).reporter.had_runtime_error == old(self).reporter.had_runtime_error,
            final(self).reporter.had_error == (old(self).reporter.had_error || result is Err || (
            result matches Ok(ready) && ready.errors@.len() > 0)),
    {
        let tokens = match Scanner::new(source).scan_tokens() {
            Ok(tokens) => tokens,
            Err(e) => {
                self.reporter.had_error = true;
                return Err(LoxError::Scan(e));
            },
        };
        let parsed = Parser::new(tokens).parse();
        if parsed.errors.len() > 0 {
            self.reporter.had_error = true;
        }
        match Resolver::new().resolve(&parsed.statements) {
            Ok(locals) => Ok(Program { statements: parsed.statements, locals, errors: parsed.errors }),
            Err(e) => {
                self.reporter.had_error = true;
                Err(LoxError::Resolve(e))
            },
        }
    }
}

} // verus!
