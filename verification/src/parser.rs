use vstd::prelude::*;
use crate::ast::{Expr, FunctionStmt, Stmt};
use crate::grammar::{
    after,
    assignment,
    block_rest,
    class_declaration,
    closed,
    condition,
    declaration,
    desugared,
    expression_statement,
    for_initializer,
    for_statement,
    function,
    function_model,
    function_models,
    if_statement,
    lemma_after_after,
    methods_rest,
    optional_expr_model,
    optional_stmt_model,
    parameters,
    print_statement,
    program_rest,
    return_statement,
    skipped,
    statement,
    stmt_model,
    stmt_models,
    synchronized,
    unfold_block_rest,
    unfold_class_declaration,
    unfold_declaration,
    unfold_for_statement,
    unfold_function,
    unfold_if_statement,
    unfold_methods_rest,
    unfold_statement,
    unfold_while_statement,
    unless,
    var_declaration,
    while_statement,
    FunctionModel,
    Mistake,
    ProgramModel,
    StmtModel,
    at,
    binary,
    binary_rest,
    call,
    call_rest,
    combined,
    expr_model,
    expression,
    finish_call,
    grouping,
    is_literal,
    more,
    operand,
    operator_of,
    primary,
    super_rest,
    token_at,
    unary,
    ExprModel,
    Parse,
};

use crate::text::{decimal, decimal_text, framed};
use crate::token::{lexemes, Lexeme, Literal, Token, TokenKind};

verus! {

/// A syntax error: the token it was found at and what was expected there.
#[derive(Debug)]
pub struct ParserError {
    pub token: Token,
    pub message: String,
}

impl ParserError {
    /// The report of the error as one line of text.
    pub open spec fn report(&self) -> Seq<char> {
        "[Line "@ + decimal_text(self.token.line as nat) + "] Error at '"@ + self.token.lexeme@
            + "': "@ + self.message@
    }

    /// Writes the report: the line of the token in brackets, the token in
    /// quotes, and the message.
    pub fn text(&self) -> (text: String)
        ensures
            text@ == self.report(),
    {
        let mut text = framed("[Line ", decimal(self.token.line).as_str(), "] Error at '");
        text.append(self.token.lexeme.as_str());
        text.append("': ");
        text.append(self.message.as_str());
        text
    }
}

/// Statements that parsed, and the errors of those that did not.
pub struct Parsed {
    pub statements: Vec<Stmt>,
    pub errors: Vec<ParserError>,
}

/// Whether a list of tokens can be parsed: it ends with the end-of-file token.
pub open spec fn terminated(tokens: Seq<Token>) -> bool {
    tokens.len() > 0 && tokens.last().kind == TokenKind::Eof
}

/// What a parser function returned, as the grammar states it: `used` is the
/// number of tokens that the parser passed.
pub open spec fn expression_outcome(result: Result<Expr, ParserError>, used: int) -> Parse<ExprModel> {
    match result {
        Ok(expression) => Parse::Done { value: expr_model(&expression), used: used as nat },
        Err(error) => Parse::Failed {
            token: error.token@,
            message: error.message@,
            used: used as nat,
        },
    }
}

/// What a parser function for statements returned, as the grammar states it.
pub open spec fn statement_outcome(result: Result<Stmt, ParserError>, used: int) -> Parse<StmtModel> {
    match result {
        Ok(statement) => Parse::Done { value: stmt_model(&statement), used: used as nat },
        Err(error) => Parse::Failed {
            token: error.token@,
            message: error.message@,
            used: used as nat,
        },
    }
}

/// What a parser function for a statement that may be missing returned.
pub open spec fn optional_statement_outcome(result: Result<Option<Stmt>, ParserError>, used: int) -> Parse<
    Option<StmtModel>,
> {
    match result {
        Ok(statement) => Parse::Done { value: optional_stmt_model(&statement), used: used as nat },
        Err(error) => Parse::Failed {
            token: error.token@,
            message: error.message@,
            used: used as nat,
        },
    }
}

/// What the parser function for a clause returned.
pub open spec fn clause_outcome(result: Result<(Option<Expr>, Token), ParserError>, used: int) -> Parse<
    Option<ExprModel>,
> {
    match result {
        Ok(pair) => Parse::Done { value: optional_expr_model(&pair.0), used: used as nat },
        Err(error) => Parse::Failed {
            token: error.token@,
            message: error.message@,
            used: used as nat,
        },
    }
}

/// What the parser function for blocks returned.
pub open spec fn block_outcome(result: Result<Vec<Stmt>, ParserError>, used: int) -> Parse<
    Seq<StmtModel>,
> {
    match result {
        Ok(statements) => Parse::Done { value: stmt_models(&statements), used: used as nat },
        Err(error) => Parse::Failed {
            token: error.token@,
            message: error.message@,
            used: used as nat,
        },
    }
}

/// What the parser function for class bodies returned.
pub open spec fn methods_outcome(result: Result<Vec<FunctionStmt>, ParserError>, used: int) -> Parse<
    Seq<FunctionModel>,
> {
    match result {
        Ok(methods) => Parse::Done { value: function_models(&methods), used: used as nat },
        Err(error) => Parse::Failed {
            token: error.token@,
            message: error.message@,
            used: used as nat,
        },
    }
}

/// What the parser function for parameters returned.
pub open spec fn parameters_outcome(result: Result<Vec<Token>, ParserError>, used: int) -> Parse<
    Seq<Lexeme>,
> {
    match result {
        Ok(names) => Parse::Done { value: lexemes(names@), used: used as nat },
        Err(error) => Parse::Failed {
            token: error.token@,
            message: error.message@,
            used: used as nat,
        },
    }
}

/// What the parser function for functions returned.
pub open spec fn function_outcome(result: Result<FunctionStmt, ParserError>, used: int) -> Parse<
    FunctionModel,
> {
    match result {
        Ok(function) => Parse::Done { value: function_model(&function), used: used as nat },
        Err(error) => Parse::Failed {
            token: error.token@,
            message: error.message@,
            used: used as nat,
        },
    }
}

/// The syntax errors as mathematics.
pub open spec fn mistakes(errors: Seq<ParserError>) -> Seq<Mistake> {
    Seq::new(
        errors.len(),
        |i: int| Mistake { token: errors[i].token@, message: errors[i].message@ },
    )
}

impl View for Parsed {
    type V = ProgramModel;

    open spec fn view(&self) -> ProgramModel {
        ProgramModel { statements: stmt_models(&self.statements), errors: mistakes(self.errors@) }
    }
}

fn parser_error(token: Token, message: &str) -> (error: ParserError)
    ensures
        error.token == token,
        error.message@ == message@,
{
    ParserError { token, message: message.to_owned() }
}

/// The three-part message about a function or a method.
fn message_about(before: &str, kind: &str, after: &str) -> (message: String)
    ensures
        message@ == before@ + kind@ + after@,
{
    let mut message = before.to_owned();
    message.append(kind);
    message.append(after);
    message
}

/// The recursive-descent parser.
pub struct Parser {
    pub tokens: Vec<Token>,
    pub current: usize,
}

impl Parser {
    /// The parser stands on a token, and the last token is the end of the file.
    pub open spec fn wf(&self) -> bool {
        terminated(self.tokens@) && self.current < self.tokens@.len()
    }

    /// The tokens as mathematics.
    pub open spec fn lexemes(&self) -> Seq<Lexeme> {
        lexemes(self.tokens@)
    }

    /// The number of tokens that lie ahead, the current one included.
    pub open spec fn ahead(&self) -> int {
        self.tokens@.len() - self.current
    }

    /// Whether `later` is this parser further on in the same tokens.
    pub open spec fn advanced_to(&self, later: &Parser) -> bool {
        later.wf() && later.tokens == self.tokens && self.current <= later.current
    }

    /// A parser that stands on the first token.
    pub fn new(tokens: Vec<Token>) -> (parser: Self)
        requires
            terminated(tokens@),
        ensures
            parser.wf(),
            parser.tokens == tokens,
            parser.current == 0,
    {
        Parser { tokens, current: 0 }
    }

    /// Takes the current token where it is of one of the kinds.
    fn exact(&mut self, kinds: &[TokenKind]) -> (taken: bool)
        requires
            old(self).wf(),
        ensures
            old(self).advanced_to(final(self)),
            taken == (more(old(self).lexemes(), old(self).current as nat) && exists|i: int|
                0 <= i < kinds@.len() && kinds@[i] == token_at(
                    old(self).lexemes(),
                    old(self).current as nat,
                ).kind),
            final(self).current == old(self).current + (if taken {
                1int
            } else {
                0int
            }),
    {
        let mut i: usize = 0;
        while i < kinds.len()
            invariant
                self.wf(),
                *self == *old(self),
                i <= kinds@.len(),
                forall|j: int|
                    0 <= j < i ==> !(more(self.lexemes(), self.current as nat) && kinds@[j]
                        == token_at(self.lexemes(), self.current as nat).kind),
            decreases kinds@.len() - i,
        {
            if self.check(kinds[i]) {
                self.advance();
                return true;
            }
            i = i + 1;
        }
        false
    }

    fn check(&self, kind: TokenKind) -> (same: bool)
        requires
            self.wf(),
        ensures
            same == at(self.lexemes(), self.current as nat, kind),
    {
        if self.is_at_end() {
            false
        } else {
            self.tokens[self.current].kind == kind
        }
    }

    /// Moves on by one token, unless the parser is at the end, and gives the
    /// token before the one it stands on then.
    fn advance(&mut self) -> (token: Token)
        requires
            old(self).wf(),
            old(self).current > 0 || old(self).tokens@[0].kind != TokenKind::Eof,
        ensures
            old(self).advanced_to(final(self)),
            final(self).current == old(self).current + (if old(self).tokens@[old(
                self,
            ).current as int].kind == TokenKind::Eof {
                0int
            } else {
                1int
            }),
            token == final(self).tokens@[final(self).current - 1],
    {
        let len = self.tokens.len();
        if !self.is_at_end() {
            self.current = self.current + 1;
        }
        self.previous()
    }

    /// Takes the current token where it is of the kind, and fails with the
    /// message where it is not.
    fn consume(&mut self, kind: TokenKind, message: &str) -> (result: Result<Token, ParserError>)
        requires
            old(self).wf(),
        ensures
            old(self).advanced_to(final(self)),
            match result {
                Ok(token) => {
                    &&& at(old(self).lexemes(), old(self).current as nat, kind)
                    &&& token == old(self).tokens@[old(self).current as int]
                    &&& final(self).current == old(self).current + 1
                },
                Err(error) => {
                    &&& !at(old(self).lexemes(), old(self).current as nat, kind)
                    &&& error.token == old(self).tokens@[old(self).current as int]
                    &&& error.message@ == message@
                    &&& final(self).current == old(self).current
                },
            },
    {
        if self.check(kind) {
            Ok(self.advance())
        } else {
            Err(parser_error(self.peek(), message))
        }
    }

    fn is_at_end(&self) -> (at_end: bool)
        requires
            self.wf(),
        ensures
            at_end == !more(self.lexemes(), self.current as nat),
            at_end == (self.tokens@[self.current as int].kind == TokenKind::Eof),
    {
        self.tokens[self.current].kind == TokenKind::Eof
    }

    fn peek(&self) -> (token: Token)
        requires
            self.wf(),
        ensures
            token == self.tokens@[self.current as int],
    {
        self.tokens[self.current].clone()
    }

    fn previous(&self) -> (token: Token)
        requires
            self.wf(),
            self.current > 0,
        ensures
            token == self.tokens@[self.current - 1],
    {
        self.tokens[self.current - 1].clone()
    }

    /// Parses the list of tokens from the token that the parser stands on
    /// to the end. A declaration that does not parse is left out of the
    /// statements, its error is kept, and the parser goes on at the next
    /// statement.
    pub fn parse(self) -> (parsed: Parsed)
        requires
            self.wf(),
        ensures
            parsed@ == program_rest(
                self.lexemes(),
                self.current as nat,
                Seq::empty(),
                Seq::empty(),
            ),
    {
        let mut parser = self;
        let ghost tokens = self.lexemes();
        let mut statements: Vec<Stmt> = Vec::new();
        let mut errors: Vec<ParserError> = Vec::new();
        assert(stmt_models(&statements) =~= Seq::<StmtModel>::empty());
        assert(mistakes(errors@) =~= Seq::<Mistake>::empty());
        while !parser.is_at_end()
            invariant
                parser.wf(),
                tokens == parser.lexemes(),
                tokens == self.lexemes(),
                program_rest(tokens, self.current as nat, Seq::empty(), Seq::empty()) == program_rest(
                    tokens,
                    parser.current as nat,
                    stmt_models(&statements),
                    mistakes(errors@),
                ),
            decreases parser.ahead(),
        {
            let ghost parsed = stmt_models(&statements);
            let ghost failed = mistakes(errors@);
            match parser.declaration() {
                Ok(statement) => {
                    statements.push(statement);
                    assert(stmt_models(&statements) =~= parsed.push(stmt_model(&statement)));
                },
                Err(error) => {
                    errors.push(error);
                    assert(mistakes(errors@) =~= failed.push(
                        Mistake { token: error.token@, message: error.message@ },
                    ));
                },
            }
        }
        Parsed { statements, errors }
    }

    /// Parses one declaration. After an error the parser stands at the
    /// beginning of the next statement.
    fn declaration(&mut self) -> (result: Result<Stmt, ParserError>)
        requires
            old(self).wf(),
            more(old(self).lexemes(), old(self).current as nat),
        ensures
            old(self).advanced_to(final(self)),
            old(self).current < final(self).current,
            statement_outcome(result, final(self).current - old(self).current) == declaration(
                old(self).lexemes(),
                old(self).current as nat,
            ),
        decreases old(self).ahead(), 52int,
    {
        proof {
            unfold_declaration(self.lexemes(), self.current as nat);
        }
        let attempt = if self.exact(&[TokenKind::Class]) {
            self.class_declaration()
        } else if self.exact(&[TokenKind::Fun]) {
            match self.function("function") {
                Ok(function) => Ok(Stmt::Function(function)),
                Err(error) => Err(error),
            }
        } else if self.exact(&[TokenKind::Var]) {
            self.var_declaration()
        } else {
            self.statement()
        };
        match attempt {
            Ok(parsed) => Ok(parsed),
            Err(error) => {
                self.synchronize();
                Err(error)
            },
        }
    }

    /// Parses the rest of a class declaration, whose keyword has been taken.
    fn class_declaration(&mut self) -> (result: Result<Stmt, ParserError>)
        requires
            old(self).wf(),
        ensures
            old(self).advanced_to(final(self)),
            result is Ok ==> old(self).current < final(self).current,
            statement_outcome(result, final(self).current - old(self).current) == class_declaration(
                old(self).lexemes(),
                old(self).current as nat,
            ),
        decreases old(self).ahead(), 56int,
    {
        proof {
            unfold_class_declaration(self.lexemes(), self.current as nat);
        }
        let name = match self.consume(TokenKind::Identifier, "Expect class name.") {
            Ok(name) => name,
            Err(error) => {
                return Err(error);
            },
        };
        let superclass = if self.exact(&[TokenKind::Less]) {
            match self.consume(TokenKind::Identifier, "Expect superclass name.") {
                Ok(parent) => Some(parent),
                Err(error) => {
                    return Err(error);
                },
            }
        } else {
            None
        };
        match self.consume(TokenKind::LeftBrace, "Expect '{' before class body.") {
            Ok(_) => {},
            Err(error) => {
                return Err(error);
            },
        }
        let methods = match self.methods() {
            Ok(methods) => methods,
            Err(error) => {
                return Err(error);
            },
        };
        let ghost models = function_models(&methods);
        let class = Stmt::Class { name, superclass, methods };
        proof {
            assert(stmt_model(&class) is Class);
            assert(stmt_model(&class)->Class_methods =~= models);
        }
        Ok(class)
    }

    /// Parses the methods of a class and the brace that closes its body.
    fn methods(&mut self) -> (result: Result<Vec<FunctionStmt>, ParserError>)
        requires
            old(self).wf(),
        ensures
            old(self).advanced_to(final(self)),
            result is Ok ==> old(self).current < final(self).current,
            methods_outcome(result, final(self).current - old(self).current) == methods_rest(
                old(self).lexemes(),
                old(self).current as nat,
                Seq::empty(),
            ),
        decreases old(self).ahead(), 57int,
    {
        let ghost tokens = self.lexemes();
        let ghost start = self.current as nat;
        let mut methods: Vec<FunctionStmt> = Vec::new();
        proof {
            assert(function_models(&methods) =~= Seq::<FunctionModel>::empty());
            lemma_after_after(0, 0, methods_rest(tokens, start, Seq::empty()));
        }
        while !self.check(TokenKind::RightBrace) && !self.is_at_end()
            invariant
                old(self).advanced_to(self),
                tokens == self.lexemes(),
                start == old(self).current,
                methods_rest(tokens, start, Seq::empty()) == after(
                    (self.current - start) as nat,
                    methods_rest(tokens, self.current as nat, function_models(&methods)),
                ),
            decreases self.ahead(),
        {
            let ghost here = self.current as nat;
            let ghost taken = function_models(&methods);
            proof {
                unfold_methods_rest(tokens, here, taken);
            }
            match self.function("method") {
                Ok(method) => {
                    methods.push(method);
                    proof {
                        let used = (self.current - here) as nat;
                        assert(function_models(&methods) =~= taken.push(function_model(&method)));
                        lemma_after_after(
                            (here - start) as nat,
                            used,
                            methods_rest(tokens, here + used, function_models(&methods)),
                        );
                    }
                },
                Err(error) => {
                    return Err(error);
                },
            }
        }
        proof {
            unfold_methods_rest(tokens, self.current as nat, function_models(&methods));
        }
        match self.consume(TokenKind::RightBrace, "Expect '}' after class body.") {
            Ok(_) => Ok(methods),
            Err(error) => Err(error),
        }
    }

    /// Parses the rest of a variable declaration, whose keyword has been taken.
    fn var_declaration(&mut self) -> (result: Result<Stmt, ParserError>)
        requires
            old(self).wf(),
        ensures
            old(self).advanced_to(final(self)),
            result is Ok ==> old(self).current < final(self).current,
            statement_outcome(result, final(self).current - old(self).current) == var_declaration(
                old(self).lexemes(),
                old(self).current as nat,
            ),
    {
        let name = match self.consume(TokenKind::Identifier, "Expect variable name.") {
            Ok(name) => name,
            Err(error) => {
                return Err(error);
            },
        };
        let initializer = if self.exact(&[TokenKind::Equal]) {
            match self.expression() {
                Ok(value) => Some(value),
                Err(error) => {
                    return Err(error);
                },
            }
        } else {
            None
        };
        match self.consume(TokenKind::Semicolon, "Expect ';' after variable declaration.") {
            Ok(_) => Ok(Stmt::Var { name, initializer }),
            Err(error) => Err(error),
        }
    }

    fn statement(&mut self) -> (result: Result<Stmt, ParserError>)
        requires
            old(self).wf(),
        ensures
            old(self).advanced_to(final(self)),
            result is Ok ==> old(self).current < final(self).current,
            statement_outcome(result, final(self).current - old(self).current) == statement(
                old(self).lexemes(),
                old(self).current as nat,
            ),
        decreases old(self).ahead(), 51int,
    {
        proof {
            unfold_statement(self.lexemes(), self.current as nat);
        }
        if self.exact(&[TokenKind::For]) {
            self.for_statement()
        } else if self.exact(&[TokenKind::If]) {
            self.if_statement()
        } else if self.exact(&[TokenKind::Print]) {
            self.print_statement()
        } else if self.exact(&[TokenKind::Return]) {
            self.return_statement()
        } else if self.exact(&[TokenKind::While]) {
            self.while_statement()
        } else if self.exact(&[TokenKind::LeftBrace]) {
            match self.block() {
                Ok(statements) => {
                    let ghost models = stmt_models(&statements);
                    let block = Stmt::Block { statements };
                    proof {
                        assert(stmt_model(&block) is Block);
                        assert(stmt_model(&block)->Block_statements =~= models);
                    }
                    Ok(block)
                },
                Err(error) => Err(error),
            }
        } else {
            self.expression_statement()
        }
    }

    /// Parses the rest of a block, whose opening brace has been taken.
    fn block(&mut self) -> (result: Result<Vec<Stmt>, ParserError>)
        requires
            old(self).wf(),
        ensures
            old(self).advanced_to(final(self)),
            result is Ok ==> old(self).current < final(self).current,
            block_outcome(result, final(self).current - old(self).current) == block_rest(
                old(self).lexemes(),
                old(self).current as nat,
                Seq::empty(),
            ),
        decreases old(self).ahead(), 53int,
    {
        let ghost tokens = self.lexemes();
        let ghost start = self.current as nat;
        let mut statements: Vec<Stmt> = Vec::new();
        proof {
            assert(stmt_models(&statements) =~= Seq::<StmtModel>::empty());
            lemma_after_after(0, 0, block_rest(tokens, start, Seq::empty()));
        }
        while !self.check(TokenKind::RightBrace) && !self.is_at_end()
            invariant
                old(self).advanced_to(self),
                tokens == self.lexemes(),
                start == old(self).current,
                block_rest(tokens, start, Seq::empty()) == after(
                    (self.current - start) as nat,
                    block_rest(tokens, self.current as nat, stmt_models(&statements)),
                ),
            decreases self.ahead(),
        {
            let ghost here = self.current as nat;
            let ghost taken = stmt_models(&statements);
            proof {
                unfold_block_rest(tokens, here, taken);
            }
            match self.declaration() {
                Ok(statement) => {
                    statements.push(statement);
                    proof {
                        let used = (self.current - here) as nat;
                        assert(stmt_models(&statements) =~= taken.push(stmt_model(&statement)));
                        lemma_after_after(
                            (here - start) as nat,
                            used,
                            block_rest(tokens, here + used, stmt_models(&statements)),
                        );
                    }
                },
                Err(error) => {
                    return Err(error);
                },
            }
        }
        proof {
            unfold_block_rest(tokens, self.current as nat, stmt_models(&statements));
        }
        match self.consume(TokenKind::RightBrace, "Expect '}' after block.") {
            Ok(_) => Ok(statements),
            Err(error) => Err(error),
        }
    }

    /// Parses the rest of a condition in parentheses, whose opening
    /// parenthesis has been taken.
    fn condition(&mut self, closing: &str) -> (result: Result<Expr, ParserError>)
        requires
            old(self).wf(),
        ensures
            old(self).advanced_to(final(self)),
            result is Ok ==> old(self).current < final(self).current,
            expression_outcome(result, final(self).current - old(self).current) == condition(
                old(self).lexemes(),
                old(self).current as nat,
                closing@,
            ),
    {
        let tested = match self.expression() {
            Ok(tested) => tested,
            Err(error) => {
                return Err(error);
            },
        };
        match self.consume(TokenKind::RightParen, closing) {
            Ok(_) => Ok(tested),
            Err(error) => Err(error),
        }
    }

    /// Parses the rest of an `if` statement, whose keyword has been taken.
    fn if_statement(&mut self) -> (result: Result<Stmt, ParserError>)
        requires
            old(self).wf(),
        ensures
            old(self).advanced_to(final(self)),
            result is Ok ==> old(self).current < final(self).current,
            statement_outcome(result, final(self).current - old(self).current) == if_statement(
                old(self).lexemes(),
                old(self).current as nat,
            ),
        decreases old(self).ahead(), 50int,
    {
        proof {
            unfold_if_statement(self.lexemes(), self.current as nat);
        }
        match self.consume(TokenKind::LeftParen, "Expect '(' after 'if'.") {
            Ok(_) => {},
            Err(error) => {
                return Err(error);
            },
        }
        let condition = match self.condition("Expect ')' after if condition.") {
            Ok(condition) => condition,
            Err(error) => {
                return Err(error);
            },
        };
        let then_branch = match self.statement() {
            Ok(branch) => Box::new(branch),
            Err(error) => {
                return Err(error);
            },
        };
        let else_branch = if self.exact(&[TokenKind::Else]) {
            match self.statement() {
                Ok(branch) => Some(Box::new(branch)),
                Err(error) => {
                    return Err(error);
                },
            }
        } else {
            None
        };
        Ok(Stmt::If { condition, then_branch, else_branch })
    }

    /// Parses the rest of a `while` statement, whose keyword has been taken.
    fn while_statement(&mut self) -> (result: Result<Stmt, ParserError>)
        requires
            old(self).wf(),
        ensures
            old(self).advanced_to(final(self)),
            result is Ok ==> old(self).current < final(self).current,
            statement_outcome(result, final(self).current - old(self).current) == while_statement(
                old(self).lexemes(),
                old(self).current as nat,
            ),
        decreases old(self).ahead(), 50int,
    {
        proof {
            unfold_while_statement(self.lexemes(), self.current as nat);
        }
        match self.consume(TokenKind::LeftParen, "Expect '(' after 'while'.") {
            Ok(_) => {},
            Err(error) => {
                return Err(error);
            },
        }
        let condition = match self.condition("Expect ')' after condition.") {
            Ok(condition) => condition,
            Err(error) => {
                return Err(error);
            },
        };
        match self.statement() {
            Ok(body) => Ok(Stmt::While { condition, body: Box::new(body) }),
            Err(error) => Err(error),
        }
    }

    /// Parses the first clause of a `for` loop.
    fn for_initializer(&mut self) -> (result: Result<Option<Stmt>, ParserError>)
        requires
            old(self).wf(),
        ensures
            old(self).advanced_to(final(self)),
            result is Ok ==> old(self).current < final(self).current,
            optional_statement_outcome(result, final(self).current - old(self).current)
                == for_initializer(old(self).lexemes(), old(self).current as nat),
    {
        if self.exact(&[TokenKind::Semicolon]) {
            Ok(None)
        } else if self.exact(&[TokenKind::Var]) {
            match self.var_declaration() {
                Ok(first) => Ok(Some(first)),
                Err(error) => Err(error),
            }
        } else {
            match self.expression_statement() {
                Ok(first) => Ok(Some(first)),
                Err(error) => Err(error),
            }
        }
    }

    /// Parses an expression that is left out where a token of the kind
    /// stands in its place, and the token of that kind after it.
    fn clause(&mut self, kind: TokenKind, message: &str) -> (result: Result<
        (Option<Expr>, Token),
        ParserError,
    >)
        requires
            old(self).wf(),
        ensures
            old(self).advanced_to(final(self)),
            result is Ok ==> old(self).current < final(self).current,
            result matches Ok(pair) ==> pair.1 == old(self).tokens@[final(self).current - 1],
            clause_outcome(result, final(self).current - old(self).current) == closed(
                old(self).lexemes(),
                old(self).current as nat,
                unless(old(self).lexemes(), old(self).current as nat, kind),
                kind,
                message@,
            ),
    {
        let value = if !self.check(kind) {
            match self.expression() {
                Ok(value) => Some(value),
                Err(error) => {
                    return Err(error);
                },
            }
        } else {
            None
        };
        match self.consume(kind, message) {
            Ok(token) => Ok((value, token)),
            Err(error) => Err(error),
        }
    }

    /// Parses the rest of a `for` statement, whose keyword has been taken,
    /// into the `while` loop that it abbreviates.
    fn for_statement(&mut self) -> (result: Result<Stmt, ParserError>)
        requires
            old(self).wf(),
        ensures
            old(self).advanced_to(final(self)),
            result is Ok ==> old(self).current < final(self).current,
            statement_outcome(result, final(self).current - old(self).current) == for_statement(
                old(self).lexemes(),
                old(self).current as nat,
            ),
        decreases old(self).ahead(), 50int,
    {
        let ghost tokens = self.lexemes();
        let ghost start = self.current as nat;
        proof {
            unfold_for_statement(tokens, start);
        }
        match self.consume(TokenKind::LeftParen, "Expect '(' after 'for'.") {
            Ok(_) => {},
            Err(error) => {
                return Err(error);
            },
        }
        let initializer = match self.for_initializer() {
            Ok(initializer) => initializer,
            Err(error) => {
                return Err(error);
            },
        };
        let (condition, condition_semicolon) = match self.clause(
            TokenKind::Semicolon,
            "Expect ';' after loop condition.",
        ) {
            Ok(pair) => pair,
            Err(error) => {
                return Err(error);
            },
        };
        let ghost semicolon = token_at(tokens, (self.current - 1) as nat);
        let (increment, _) = match self.clause(
            TokenKind::RightParen,
            "Expect ')' after for clauses.",
        ) {
            Ok(pair) => pair,
            Err(error) => {
                return Err(error);
            },
        };
        let body = match self.statement() {
            Ok(body) => body,
            Err(error) => {
                return Err(error);
            },
        };
        Ok(Self::desugar(initializer, condition, condition_semicolon, increment, body))
    }

    /// Builds the `while` loop that a `for` loop abbreviates.
    fn desugar(
        initializer: Option<Stmt>,
        condition: Option<Expr>,
        semicolon: Token,
        increment: Option<Expr>,
        body: Stmt,
    ) -> (looped: Stmt)
        ensures
            stmt_model(&looped) == desugared(
                optional_stmt_model(&initializer),
                optional_expr_model(&condition),
                semicolon@,
                optional_expr_model(&increment),
                stmt_model(&body),
            ),
    {
        let ghost body_model = stmt_model(&body);
        let stepped = match increment {
            Some(expression) => {
                let ghost step_model = StmtModel::Expression { expression: expr_model(&expression) };
                let mut statements: Vec<Stmt> = Vec::new();
                statements.push(body);
                statements.push(Stmt::Expression { expression });
                let ghost models = stmt_models(&statements);
                let block = Stmt::Block { statements };
                proof {
                    assert(models =~= seq![body_model, step_model]);
                    assert(stmt_model(&block) is Block);
                    assert(stmt_model(&block)->Block_statements =~= models);
                }
                block
            },
            None => body,
        };
        let tested = match condition {
            Some(given) => given,
            None => Expr::Literal {
                value: Token {
                    kind: TokenKind::True,
                    lexeme: "true".to_owned(),
                    literal: Literal::Bool(true),
                    line: semicolon.line,
                    scanner_index: semicolon.scanner_index,
                },
            },
        };
        let looped = Stmt::While { condition: tested, body: Box::new(stepped) };
        match initializer {
            Some(first) => {
                let ghost first_model = stmt_model(&first);
                let ghost loop_model = stmt_model(&looped);
                let mut statements: Vec<Stmt> = Vec::new();
                statements.push(first);
                statements.push(looped);
                let ghost models = stmt_models(&statements);
                let block = Stmt::Block { statements };
                proof {
                    assert(models =~= seq![first_model, loop_model]);
                    assert(stmt_model(&block) is Block);
                    assert(stmt_model(&block)->Block_statements =~= models);
                }
                block
            },
            None => looped,
        }
    }

    /// Parses the rest of a `print` statement, whose keyword has been taken.
    fn print_statement(&mut self) -> (result: Result<Stmt, ParserError>)
        requires
            old(self).wf(),
        ensures
            old(self).advanced_to(final(self)),
            result is Ok ==> old(self).current < final(self).current,
            statement_outcome(result, final(self).current - old(self).current) == print_statement(
                old(self).lexemes(),
                old(self).current as nat,
            ),
    {
        let value = match self.expression() {
            Ok(value) => value,
            Err(error) => {
                return Err(error);
            },
        };
        match self.consume(TokenKind::Semicolon, "Expect ';' after value.") {
            Ok(_) => Ok(Stmt::Print { expression: value }),
            Err(error) => Err(error),
        }
    }

    /// Parses the rest of a `return` statement, whose keyword has been taken.
    fn return_statement(&mut self) -> (result: Result<Stmt, ParserError>)
        requires
            old(self).wf(),
            old(self).current > 0,
        ensures
            old(self).advanced_to(final(self)),
            result is Ok ==> old(self).current < final(self).current,
            statement_outcome(result, final(self).current - old(self).current) == return_statement(
                old(self).lexemes(),
                old(self).current as nat,
            ),
    {
        let keyword = self.previous();
        match self.clause(TokenKind::Semicolon, "Expect ';' after 'return'.") {
            Ok((value, _)) => Ok(Stmt::Return { keyword, value }),
            Err(error) => Err(error),
        }
    }

    fn expression_statement(&mut self) -> (result: Result<Stmt, ParserError>)
        requires
            old(self).wf(),
        ensures
            old(self).advanced_to(final(self)),
            result is Ok ==> old(self).current < final(self).current,
            statement_outcome(result, final(self).current - old(self).current)
                == expression_statement(old(self).lexemes(), old(self).current as nat),
    {
        let expression = match self.expression() {
            Ok(expression) => expression,
            Err(error) => {
                return Err(error);
            },
        };
        match self.consume(TokenKind::Semicolon, "Expect ';' after expression.") {
            Ok(_) => Ok(Stmt::Expression { expression }),
            Err(error) => Err(error),
        }
    }

    /// Parses the names of the parameters of a function.
    fn parameters(&mut self) -> (result: Result<Vec<Token>, ParserError>)
        requires
            old(self).wf(),
        ensures
            old(self).advanced_to(final(self)),
            result is Ok ==> old(self).current < final(self).current,
            result matches Ok(names) ==> names@.len() <= 255,
            parameters_outcome(result, final(self).current - old(self).current) == parameters(
                old(self).lexemes(),
                old(self).current as nat,
                Seq::empty(),
            ),
    {
        let ghost tokens = self.lexemes();
        let ghost start = self.current as nat;
        let mut names: Vec<Token> = Vec::new();
        proof {
            assert(lexemes(names@) =~= Seq::<Lexeme>::empty());
            lemma_after_after(0, 0, parameters(tokens, start, Seq::empty()));
        }
        loop
            invariant_except_break
                parameters(tokens, start, Seq::empty()) == after(
                    (self.current - start) as nat,
                    parameters(tokens, self.current as nat, lexemes(names@)),
                ),
            invariant
                old(self).advanced_to(self),
                tokens == self.lexemes(),
                start == old(self).current,
                names@.len() <= 255,
            ensures
                old(self).current < self.current,
                parameters(tokens, start, Seq::empty()) == (Parse::Done {
                    value: lexemes(names@),
                    used: (self.current - start) as nat,
                }),
            decreases self.ahead(),
        {
            let ghost here = self.current as nat;
            let ghost taken = lexemes(names@);
            if names.len() >= 255 {
                return Err(parser_error(self.peek(), "Can't have more than 255 arguments."));
            }
            match self.consume(TokenKind::Identifier, "Expect parameter name.") {
                Ok(name) => {
                    names.push(name);
                    assert(lexemes(names@) =~= taken.push(token_at(tokens, here)));
                },
                Err(error) => {
                    return Err(error);
                },
            }
            if self.exact(&[TokenKind::Comma]) {
                proof {
                    lemma_after_after(
                        (here - start) as nat,
                        2,
                        parameters(tokens, here + 2, lexemes(names@)),
                    );
                }
            } else {
                break ;
            }
        }
        Ok(names)
    }

    /// Parses a function or a method from its name on; `kind` says in the
    /// messages which of the two it is.
    fn function(&mut self, kind: &str) -> (result: Result<FunctionStmt, ParserError>)
        requires
            old(self).wf(),
        ensures
            old(self).advanced_to(final(self)),
            result is Ok ==> old(self).current < final(self).current,
            function_outcome(result, final(self).current - old(self).current) == function(
                old(self).lexemes(),
                old(self).current as nat,
                kind@,
            ),
        decreases old(self).ahead(), 54int,
    {
        proof {
            unfold_function(self.lexemes(), self.current as nat, kind@);
        }
        let name_message = message_about("Expect ", kind, " name.");
        let name = match self.consume(TokenKind::Identifier, name_message.as_str()) {
            Ok(name) => name,
            Err(error) => {
                return Err(error);
            },
        };
        let paren_message = message_about("Expect '(' after ", kind, " name");
        match self.consume(TokenKind::LeftParen, paren_message.as_str()) {
            Ok(_) => {},
            Err(error) => {
                return Err(error);
            },
        }
        let params = if self.check(TokenKind::RightParen) {
            let none: Vec<Token> = Vec::new();
            assert(lexemes(none@) =~= Seq::<Lexeme>::empty());
            none
        } else {
            match self.parameters() {
                Ok(params) => params,
                Err(error) => {
                    return Err(error);
                },
            }
        };
        match self.consume(TokenKind::RightParen, "Expect ')' after parameters.") {
            Ok(_) => {},
            Err(error) => {
                return Err(error);
            },
        }
        let body_message = message_about("Expect '{' before ", kind, " body.");
        match self.consume(TokenKind::LeftBrace, body_message.as_str()) {
            Ok(_) => {},
            Err(error) => {
                return Err(error);
            },
        }
        let body = match self.block() {
            Ok(body) => body,
            Err(error) => {
                return Err(error);
            },
        };
        let ghost names = lexemes(params@);
        let ghost statements = stmt_models(&body);
        let function = FunctionStmt { name, params, body };
        proof {
            assert(function_model(&function).params =~= names);
            assert(function_model(&function).body =~= statements);
        }
        Ok(function)
    }

    fn expression(&mut self) -> (result: Result<Expr, ParserError>)
        requires
            old(self).wf(),
        ensures
            old(self).advanced_to(final(self)),
            result is Ok ==> old(self).current < final(self).current,
            expression_outcome(result, final(self).current - old(self).current) == expression(
                old(self).lexemes(),
                old(self).current as nat,
            ),
        decreases old(self).ahead(), 31int,
    {
        proof {
            crate::grammar::unfold_expression(self.lexemes(), self.current as nat);
        }
        self.assignment()
    }

    fn assignment(&mut self) -> (result: Result<Expr, ParserError>)
        requires
            old(self).wf(),
        ensures
            old(self).advanced_to(final(self)),
            result is Ok ==> old(self).current < final(self).current,
            expression_outcome(result, final(self).current - old(self).current) == assignment(
                old(self).lexemes(),
                old(self).current as nat,
            ),
        decreases old(self).ahead(), 30int,
    {
        proof {
            crate::grammar::unfold_assignment(self.lexemes(), self.current as nat);
        }
        let expr = self.or()?;
        if self.exact(&[TokenKind::Equal]) {
            let equals = self.previous();
            let value = self.assignment()?;
            match expr {
                Expr::Variable { name } => Ok(Expr::Assign { name, value: Box::new(value) }),
                Expr::Get { name, object } => Ok(
                    Expr::SetProperty { name, object, value: Box::new(value) },
                ),
                _ => Err(parser_error(equals, "Invalid assignment target.")),
            }
        } else {
            Ok(expr)
        }
    }

    fn or(&mut self) -> (result: Result<Expr, ParserError>)
        requires
            old(self).wf(),
        ensures
            old(self).advanced_to(final(self)),
            result is Ok ==> old(self).current < final(self).current,
            expression_outcome(result, final(self).current - old(self).current) == binary(
                old(self).lexemes(),
                5,
                old(self).current as nat,
            ),
        decreases old(self).ahead(), 27int,
    {
        self.chain(5)
    }

    fn and(&mut self) -> (result: Result<Expr, ParserError>)
        requires
            old(self).wf(),
        ensures
            old(self).advanced_to(final(self)),
            result is Ok ==> old(self).current < final(self).current,
            expression_outcome(result, final(self).current - old(self).current) == binary(
                old(self).lexemes(),
                4,
                old(self).current as nat,
            ),
        decreases old(self).ahead(), 23int,
    {
        self.chain(4)
    }

    fn equality(&mut self) -> (result: Result<Expr, ParserError>)
        requires
            old(self).wf(),
        ensures
            old(self).advanced_to(final(self)),
            result is Ok ==> old(self).current < final(self).current,
            expression_outcome(result, final(self).current - old(self).current) == binary(
                old(self).lexemes(),
                3,
                old(self).current as nat,
            ),
        decreases old(self).ahead(), 19int,
    {
        self.chain(3)
    }

    fn comparison(&mut self) -> (result: Result<Expr, ParserError>)
        requires
            old(self).wf(),
        ensures
            old(self).advanced_to(final(self)),
            result is Ok ==> old(self).current < final(self).current,
            expression_outcome(result, final(self).current - old(self).current) == binary(
                old(self).lexemes(),
                2,
                old(self).current as nat,
            ),
        decreases old(self).ahead(), 15int,
    {
        self.chain(2)
    }

    fn term(&mut self) -> (result: Result<Expr, ParserError>)
        requires
            old(self).wf(),
        ensures
            old(self).advanced_to(final(self)),
            result is Ok ==> old(self).current < final(self).current,
            expression_outcome(result, final(self).current - old(self).current) == binary(
                old(self).lexemes(),
                1,
                old(self).current as nat,
            ),
        decreases old(self).ahead(), 11int,
    {
        self.chain(1)
    }

    fn factor(&mut self) -> (result: Result<Expr, ParserError>)
        requires
            old(self).wf(),
        ensures
            old(self).advanced_to(final(self)),
            result is Ok ==> old(self).current < final(self).current,
            expression_outcome(result, final(self).current - old(self).current) == binary(
                old(self).lexemes(),
                0,
                old(self).current as nat,
            ),
        decreases old(self).ahead(), 7int,
    {
        self.chain(0)
    }

    /// Whether the next token is an operator of the level.
    fn operator_follows(&self, level: u8) -> (follows: bool)
        requires
            self.wf(),
        ensures
            follows == (more(self.lexemes(), self.current as nat) && operator_of(
                level as nat,
                token_at(self.lexemes(), self.current as nat).kind,
            )),
    {
        let kind = self.tokens[self.current].kind;
        match level {
            0 => kind == TokenKind::Slash || kind == TokenKind::Star,
            1 => kind == TokenKind::Minus || kind == TokenKind::Plus,
            2 => kind == TokenKind::Greater || kind == TokenKind::GreaterEqual || kind
                == TokenKind::Less || kind == TokenKind::LessEqual,
            3 => kind == TokenKind::BangEqual || kind == TokenKind::EqualEqual,
            4 => kind == TokenKind::And,
            5 => kind == TokenKind::Or,
            _ => false,
        }
    }

    /// An operand of the operators of a level.
    fn operand(&mut self, level: u8) -> (result: Result<Expr, ParserError>)
        requires
            old(self).wf(),
            level <= 5,
        ensures
            old(self).advanced_to(final(self)),
            result is Ok ==> old(self).current < final(self).current,
            expression_outcome(result, final(self).current - old(self).current) == operand(
                old(self).lexemes(),
                level as nat,
                old(self).current as nat,
            ),
        decreases old(self).ahead(), 4 * level + 4,
    {
        proof {
            crate::grammar::unfold_operand(self.lexemes(), level as nat, self.current as nat);
        }
        match level {
            0 => self.unary(),
            1 => self.factor(),
            2 => self.term(),
            3 => self.comparison(),
            4 => self.equality(),
            _ => self.and(),
        }
    }

    /// A chain of the left-associative operators of a level.
    fn chain(&mut self, level: u8) -> (result: Result<Expr, ParserError>)
        requires
            old(self).wf(),
            level <= 5,
        ensures
            old(self).advanced_to(final(self)),
            result is Ok ==> old(self).current < final(self).current,
            expression_outcome(result, final(self).current - old(self).current) == binary(
                old(self).lexemes(),
                level as nat,
                old(self).current as nat,
            ),
        decreases old(self).ahead(), 4 * level + 6,
    {
        proof {
            crate::grammar::unfold_binary(self.lexemes(), level as nat, self.current as nat);
        }
        let ghost tokens = self.lexemes();
        let ghost start = self.current as nat;
        let mut expr = match self.operand(level) {
            Ok(expr) => expr,
            Err(error) => {
                return Err(error);
            },
        };
        while self.operator_follows(level)
            invariant
                old(self).advanced_to(self),
                old(self).current < self.current,
                level <= 5,
                tokens == self.lexemes(),
                start == old(self).current,
                binary(tokens, level as nat, start) == after(
                    (self.current - start) as nat,
                    binary_rest(tokens, level as nat, self.current as nat, expr_model(&expr)),
                ),
            decreases self.ahead(),
        {
            let ghost here = self.current as nat;
            let ghost left = expr_model(&expr);
            proof {
                crate::grammar::unfold_binary_rest(tokens, level as nat, here, left);
            }
            let operator = self.advance();
            let right = match self.operand(level) {
                Ok(right) => right,
                Err(error) => {
                    proof {
                        let inner = operand(tokens, level as nat, here + 1);
                        assert(binary_rest(tokens, level as nat, here, left) == after(
                            1,
                            Parse::<ExprModel>::Failed {
                                token: inner->Failed_token,
                                message: inner->Failed_message,
                                used: inner->Failed_used,
                            },
                        ));
                    }
                    return Err(error);
                },
            };
            let ghost used = (self.current - here - 1) as nat;
            let ghost joined = combined(level as nat, left, token_at(tokens, here), expr_model(&right));
            expr = if level >= 4 {
                Expr::Logical { left: Box::new(expr), operator, right: Box::new(right) }
            } else {
                Expr::Binary { left: Box::new(expr), operator, right: Box::new(right) }
            };
            proof {
                assert(operator@ == token_at(tokens, here));
                assert(expr_model(&expr) == joined);
                assert(binary_rest(tokens, level as nat, here, left) == after(
                    used + 1,
                    binary_rest(tokens, level as nat, here + 1 + used, joined),
                ));
                crate::grammar::lemma_after_after(
                    (here - start) as nat,
                    used + 1,
                    binary_rest(tokens, level as nat, here + 1 + used, joined),
                );
            }
        }
        proof {
            crate::grammar::unfold_binary_rest(
                tokens,
                level as nat,
                self.current as nat,
                expr_model(&expr),
            );
        }
        Ok(expr)
    }

    fn unary(&mut self) -> (result: Result<Expr, ParserError>)
        requires
            old(self).wf(),
        ensures
            old(self).advanced_to(final(self)),
            result is Ok ==> old(self).current < final(self).current,
            expression_outcome(result, final(self).current - old(self).current) == unary(
                old(self).lexemes(),
                old(self).current as nat,
            ),
        decreases old(self).ahead(), 3int,
    {
        proof {
            crate::grammar::unfold_unary(self.lexemes(), self.current as nat);
        }
        if self.exact(&[TokenKind::Bang, TokenKind::Minus]) {
            let operator = self.previous();
            let right = self.unary()?;
            Ok(Expr::Unary { operator, right: Box::new(right) })
        } else {
            self.call()
        }
    }

    fn call(&mut self) -> (result: Result<Expr, ParserError>)
        requires
            old(self).wf(),
        ensures
            old(self).advanced_to(final(self)),
            result is Ok ==> old(self).current < final(self).current,
            expression_outcome(result, final(self).current - old(self).current) == call(
                old(self).lexemes(),
                old(self).current as nat,
            ),
        decreases old(self).ahead(), 2int,
    {
        proof {
            crate::grammar::unfold_call(self.lexemes(), self.current as nat);
        }
        let ghost tokens = self.lexemes();
        let ghost start = self.current as nat;
        let mut expr = self.primary()?;
        loop
            invariant
                old(self).advanced_to(self),
                old(self).current < self.current,
                tokens == self.lexemes(),
                start == old(self).current,
                call(tokens, start) == after(
                    (self.current - start) as nat,
                    call_rest(tokens, self.current as nat, expr_model(&expr)),
                ),
            ensures
                call(tokens, start) == (Parse::Done {
                    value: expr_model(&expr),
                    used: (self.current - start) as nat,
                }),
            decreases self.ahead(),
        {
            let ghost here = self.current as nat;
            let ghost callee = expr_model(&expr);
            proof {
                crate::grammar::unfold_call_rest(tokens, here, callee);
            }
            if self.exact(&[TokenKind::LeftParen]) {
                expr = match self.finish_call(expr) {
                    Ok(called) => called,
                    Err(error) => {
                        return Err(error);
                    },
                };
            } else if self.exact(&[TokenKind::Dot]) {
                let name = match self.consume(
                    TokenKind::Identifier,
                    "Expect property name after '.'.",
                ) {
                    Ok(name) => name,
                    Err(error) => {
                        return Err(error);
                    },
                };
                expr = Expr::Get { object: Box::new(expr), name };
            } else {
                break ;
            }
        }
        Ok(expr)
    }

    /// Parses the arguments of a call, whose opening parenthesis has been taken.
    fn finish_call(&mut self, callee: Expr) -> (result: Result<Expr, ParserError>)
        requires
            old(self).wf(),
        ensures
            old(self).advanced_to(final(self)),
            result is Ok ==> old(self).current < final(self).current,
            expression_outcome(result, final(self).current - old(self).current) == finish_call(
                old(self).lexemes(),
                old(self).current as nat,
                expr_model(&callee),
            ),
        decreases old(self).ahead(), 33int,
    {
        proof {
            crate::grammar::unfold_finish_call(self.lexemes(), self.current as nat, expr_model(&callee));
        }
        let ghost tokens = self.lexemes();
        let ghost start = self.current as nat;
        let mut arguments: Vec<Expr> = Vec::new();
        if !self.check(TokenKind::RightParen) {
            assert(crate::grammar::expr_models(&arguments) =~= Seq::<ExprModel>::empty());
            loop
                invariant_except_break
                    crate::grammar::arguments(tokens, start, Seq::<ExprModel>::empty()) == after(
                        (self.current - start) as nat,
                        crate::grammar::arguments(
                            tokens,
                            self.current as nat,
                            crate::grammar::expr_models(&arguments),
                        ),
                    ),
                invariant
                    old(self).advanced_to(self),
                    tokens == self.lexemes(),
                    start == old(self).current,
                    !at(tokens, start, TokenKind::RightParen),
                ensures
                    crate::grammar::arguments(tokens, start, Seq::<ExprModel>::empty()) == (Parse::Done {
                        value: crate::grammar::expr_models(&arguments),
                        used: (self.current - start) as nat,
                    }),
                decreases self.ahead(),
            {
                let ghost taken = crate::grammar::expr_models(&arguments);
                let ghost here = self.current as nat;
                proof {
                    crate::grammar::unfold_arguments(tokens, here, taken);
                    crate::grammar::unfold_finish_call(tokens, start, expr_model(&callee));
                }
                if arguments.len() >= 255 {
                    return Err(parser_error(self.peek(), "Can't have more than 255 arguments."));
                }
                let argument = match self.expression() {
                    Ok(argument) => argument,
                    Err(error) => {
                        return Err(error);
                    },
                };
                arguments.push(argument);
                assert(crate::grammar::expr_models(&arguments) =~= taken.push(
                    expr_model(&argument),
                ));
                if self.exact(&[TokenKind::Comma]) {
                } else {
                    break ;
                }
            }
        } else {
            assert(crate::grammar::expr_models(&arguments) =~= Seq::<ExprModel>::empty());
        }
        let paren = self.consume(TokenKind::RightParen, "Expect ')' after arguments.")?;
        let ghost list = crate::grammar::expr_models(&arguments);
        let ghost function = expr_model(&callee);
        let called = Expr::Call { callee: Box::new(callee), paren, arguments };
        proof {
            assert(expr_model(&called) is Call);
            assert(expr_model(&called)->Call_arguments =~= list);
            assert(expr_model(&called)->Call_callee == Box::new(function));
            assert(expr_model(&called)->Call_paren == paren@);
        }
        Ok(called)
    }

    fn primary(&mut self) -> (result: Result<Expr, ParserError>)
        requires
            old(self).wf(),
        ensures
            old(self).advanced_to(final(self)),
            result is Ok ==> old(self).current < final(self).current,
            expression_outcome(result, final(self).current - old(self).current) == primary(
                old(self).lexemes(),
                old(self).current as nat,
            ),
        decreases old(self).ahead(), 0int,
    {
        proof {
            crate::grammar::unfold_primary(self.lexemes(), self.current as nat);
        }
        if self.exact(
            &[
                TokenKind::False,
                TokenKind::True,
                TokenKind::Nil,
                TokenKind::Number,
                TokenKind::String,
            ],
        ) {
            Ok(Expr::Literal { value: self.previous() })
        } else if self.exact(&[TokenKind::LeftParen]) {
            self.grouping()
        } else if self.exact(&[TokenKind::This]) {
            Ok(Expr::This { keyword: self.previous() })
        } else if self.exact(&[TokenKind::Super]) {
            let keyword = self.previous();
            self.super_rest(keyword)
        } else if self.exact(&[TokenKind::Identifier]) {
            Ok(Expr::Variable { name: self.previous() })
        } else {
            Err(parser_error(self.peek(), "Expect expression."))
        }
    }

    /// Parses the rest of a parenthesized expression, whose opening
    /// parenthesis has been taken.
    fn grouping(&mut self) -> (result: Result<Expr, ParserError>)
        requires
            old(self).wf(),
        ensures
            old(self).advanced_to(final(self)),
            result is Ok ==> old(self).current < final(self).current,
            expression_outcome(result, final(self).current - old(self).current) == grouping(
                old(self).lexemes(),
                old(self).current as nat,
            ),
        decreases old(self).ahead(), 40int,
    {
        proof {
            crate::grammar::unfold_grouping(self.lexemes(), self.current as nat);
        }
        let expr = match self.expression() {
            Ok(expr) => expr,
            Err(error) => {
                return Err(error);
            },
        };
        match self.consume(TokenKind::RightParen, "Expect ')' after expression.") {
            Ok(_) => Ok(Expr::Grouping { expression: Box::new(expr) }),
            Err(error) => Err(error),
        }
    }

    /// Parses the rest of `super.method`, whose keyword has been taken.
    fn super_rest(&mut self, keyword: Token) -> (result: Result<Expr, ParserError>)
        requires
            old(self).wf(),
            old(self).current > 0,
            keyword == old(self).tokens@[old(self).current - 1],
        ensures
            old(self).advanced_to(final(self)),
            result is Ok ==> old(self).current < final(self).current,
            expression_outcome(result, final(self).current - old(self).current) == super_rest(
                old(self).lexemes(),
                old(self).current as nat,
            ),
    {
        match self.consume(TokenKind::Dot, "Expect '.' after 'super'.") {
            Ok(_) => {},
            Err(error) => {
                return Err(error);
            },
        }
        match self.consume(TokenKind::Identifier, "Expect superclass method name.") {
            Ok(method) => Ok(Expr::Super { keyword, method }),
            Err(error) => Err(error),
        }
    }

    /// Skips tokens up to the beginning of the next statement.
    fn synchronize(&mut self)
        requires
            old(self).wf(),
            old(self).current > 0 || more(old(self).lexemes(), 0),
        ensures
            old(self).advanced_to(final(self)),
            final(self).current == old(self).current + synchronized(
                old(self).lexemes(),
                old(self).current as nat,
            ),
    {
        let ghost tokens = self.lexemes();
        let ghost start = self.current as nat;
        self.advance();
        while !self.is_at_end()
            invariant
                old(self).advanced_to(self),
                tokens == self.lexemes(),
                start == old(self).current,
                self.current > 0,
                synchronized(tokens, start) == (self.current - start) + skipped(
                    tokens,
                    self.current as nat,
                ),
            decreases self.ahead(),
        {
            if self.previous().kind == TokenKind::Semicolon {
                return ;
            }
            match self.tokens[self.current].kind {
                TokenKind::Class
                | TokenKind::Fun
                | TokenKind::Var
                | TokenKind::For
                | TokenKind::If
                | TokenKind::While
                | TokenKind::Print
                | TokenKind::Return => {
                    return ;
                },
                _ => {
                    self.advance();
                },
            }
        }
    }
}

} // verus!
