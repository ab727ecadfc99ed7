use vstd::prelude::*;
use crate::ast::{Expr, FunctionStmt, Stmt};

use crate::token::{lexemes, Constant, Lexeme, TokenKind};

verus! {

/// An expression as mathematics.
#[allow(inconsistent_fields)]
pub ghost enum ExprModel {
    Binary { left: Box<ExprModel>, operator: Lexeme, right: Box<ExprModel> },
    Call { callee: Box<ExprModel>, paren: Lexeme, arguments: Seq<ExprModel> },
    Get { object: Box<ExprModel>, name: Lexeme },
    Grouping { expression: Box<ExprModel> },
    Literal { value: Lexeme },
    Logical { left: Box<ExprModel>, operator: Lexeme, right: Box<ExprModel> },
    SetProperty { object: Box<ExprModel>, name: Lexeme, value: Box<ExprModel> },
    Super { keyword: Lexeme, method: Lexeme },
    This { keyword: Lexeme },
    Unary { operator: Lexeme, right: Box<ExprModel> },
    Variable { name: Lexeme },
    Assign { name: Lexeme, value: Box<ExprModel> },
}

/// A function declaration as mathematics.
pub ghost struct FunctionModel {
    pub name: Lexeme,
    pub params: Seq<Lexeme>,
    pub body: Seq<StmtModel>,
}

/// A statement as mathematics.
pub ghost enum StmtModel {
    Expression { expression: ExprModel },
    Print { expression: ExprModel },
    Return { keyword: Lexeme, value: Option<ExprModel> },
    Var { name: Lexeme, initializer: Option<ExprModel> },
    While { condition: ExprModel, body: Box<StmtModel> },
    Block { statements: Seq<StmtModel> },
    Class { name: Lexeme, superclass: Option<Lexeme>, methods: Seq<FunctionModel> },
    Function(FunctionModel),
    If { condition: ExprModel, then_branch: Box<StmtModel>, else_branch: Option<Box<StmtModel>> },
}

/// An expression of the syntax tree as mathematics.
pub open spec fn expr_model(expression: &Expr) -> ExprModel
    decreases expression,
{
    match expression {
        Expr::Binary { left, operator, right } => ExprModel::Binary {
            left: Box::new(expr_model(left)),
            operator: operator@,
            right: Box::new(expr_model(right)),
        },
        Expr::Call { callee, paren, arguments } => ExprModel::Call {
            callee: Box::new(expr_model(callee)),
            paren: paren@,
            arguments: expr_models(arguments),
        },
        Expr::Get { object, name } => ExprModel::Get {
            object: Box::new(expr_model(object)),
            name: name@,
        },
        Expr::Grouping { expression } => ExprModel::Grouping {
            expression: Box::new(expr_model(expression)),
        },
        Expr::Literal { value } => ExprModel::Literal { value: value@ },
        Expr::Logical { left, operator, right } => ExprModel::Logical {
            left: Box::new(expr_model(left)),
            operator: operator@,
            right: Box::new(expr_model(right)),
        },
        Expr::SetProperty { object, name, value } => ExprModel::SetProperty {
            object: Box::new(expr_model(object)),
            name: name@,
            value: Box::new(expr_model(value)),
        },
        Expr::Super { keyword, method } => ExprModel::Super { keyword: keyword@, method: method@ },
        Expr::This { keyword } => ExprModel::This { keyword: keyword@ },
        Expr::Unary { operator, right } => ExprModel::Unary {
            operator: operator@,
            right: Box::new(expr_model(right)),
        },
        Expr::Variable { name } => ExprModel::Variable { name: name@ },
        Expr::Assign { name, value } => ExprModel::Assign {
            name: name@,
            value: Box::new(expr_model(value)),
        },
    }
}

/// A list of expressions as mathematics.
pub open spec fn expr_models(expressions: &Vec<Expr>) -> Seq<ExprModel>
    decreases expressions,
{
    Seq::new(
        expressions@.len(),
        |i: int|
            if 0 <= i < expressions@.len() {
                expr_model(&expressions@[i])
            } else {
                arbitrary()
            },
    )
}

/// An expression that may be missing, as mathematics.
pub open spec fn optional_expr_model(expression: &Option<Expr>) -> Option<ExprModel> {
    match expression {
        Some(inner) => Some(expr_model(inner)),
        None => None,
    }
}

/// A function declaration of the syntax tree as mathematics.
pub open spec fn function_model(function: &FunctionStmt) -> FunctionModel
    decreases function,
{
    FunctionModel {
        name: function.name@,
        params: lexemes(function.params@),
        body: stmt_models(&function.body),
    }
}

/// A statement of the syntax tree as mathematics.
pub open spec fn stmt_model(statement: &Stmt) -> StmtModel
    decreases statement,
{
    match statement {
        Stmt::Expression { expression } => StmtModel::Expression {
            expression: expr_model(expression),
        },
        Stmt::Print { expression } => StmtModel::Print { expression: expr_model(expression) },
        Stmt::Return { keyword, value } => StmtModel::Return {
            keyword: keyword@,
            value: optional_expr_model(value),
        },
        Stmt::Var { name, initializer } => StmtModel::Var {
            name: name@,
            initializer: optional_expr_model(initializer),
        },
        Stmt::While { condition, body } => StmtModel::While {
            condition: expr_model(condition),
            body: Box::new(stmt_model(body)),
        },
        Stmt::Block { statements } => StmtModel::Block { statements: stmt_models(statements) },
        Stmt::Class { name, superclass, methods } => StmtModel::Class {
            name: name@,
            superclass: match superclass {
                Some(parent) => Some(parent@),
                None => None,
            },
            methods: function_models(methods),
        },
        Stmt::Function(function) => StmtModel::Function(function_model(function)),
        Stmt::If { condition, then_branch, else_branch } => StmtModel::If {
            condition: expr_model(condition),
            then_branch: Box::new(stmt_model(then_branch)),
            else_branch: match else_branch {
                Some(other) => Some(Box::new(stmt_model(other))),
                None => None,
            },
        },
    }
}

/// A statement that may be missing, as mathematics.
pub open spec fn optional_stmt_model(statement: &Option<Stmt>) -> Option<StmtModel> {
    match statement {
        Some(inner) => Some(stmt_model(inner)),
        None => None,
    }
}

/// A list of statements as mathematics.
pub open spec fn stmt_models(statements: &Vec<Stmt>) -> Seq<StmtModel>
    decreases statements,
{
    Seq::new(
        statements@.len(),
        |i: int|
            if 0 <= i < statements@.len() {
                stmt_model(&statements@[i])
            } else {
                arbitrary()
            },
    )
}

/// A list of function declarations as mathematics.
pub open spec fn function_models(functions: &Vec<FunctionStmt>) -> Seq<FunctionModel>
    decreases functions,
{
    Seq::new(
        functions@.len(),
        |i: int|
            if 0 <= i < functions@.len() {
                function_model(&functions@[i])
            } else {
                arbitrary()
            },
    )
}

/// What parsing from some position gives: a value and the number of tokens
/// it took, or an error, the token it was found at, and the number of
/// tokens passed before the parser stops.
pub ghost enum Parse<T> {
    Done { value: T, used: nat },
    Failed { token: Lexeme, message: Seq<char>, used: nat },
}

/// The same outcome for a parser that had taken `count` tokens before.
pub open spec fn after<T>(count: nat, outcome: Parse<T>) -> Parse<T> {
    match outcome {
        Parse::Done { value, used } => Parse::Done { value, used: used + count },
        Parse::Failed { token, message, used } => Parse::Failed { token, message, used: used + count },
    }
}

/// The number of tokens from `pos` to the end.
pub open spec fn ahead(tokens: Seq<Lexeme>, pos: nat) -> nat {
    if pos <= tokens.len() {
        (tokens.len() - pos) as nat
    } else {
        0
    }
}

/// The token at `pos`.
pub open spec fn token_at(tokens: Seq<Lexeme>, pos: nat) -> Lexeme {
    tokens[pos as int]
}

/// Whether the token at `pos` is of this kind and not the end of the file.
pub open spec fn at(tokens: Seq<Lexeme>, pos: nat, kind: TokenKind) -> bool {
    pos < tokens.len() && token_at(tokens, pos).kind == kind && kind != TokenKind::Eof
}

/// Whether the parser at `pos` has tokens of the program before it.
pub open spec fn more(tokens: Seq<Lexeme>, pos: nat) -> bool {
    pos < tokens.len() && token_at(tokens, pos).kind != TokenKind::Eof
}

/// A value that is complete once a token of this kind follows it.
pub open spec fn closed<T>(
    tokens: Seq<Lexeme>,
    pos: nat,
    outcome: Parse<T>,
    kind: TokenKind,
    message: Seq<char>,
) -> Parse<T> {
    match outcome {
        Parse::Done { value, used } => if at(tokens, pos + used, kind) {
            Parse::Done { value, used: used + 1 }
        } else {
            Parse::Failed { token: token_at(tokens, pos + used), message, used }
        },
        Parse::Failed { token, message, used } => outcome,
    }
}

/// The failure of a parser that stops at `pos` without passing a token.
pub open spec fn failed_at<T>(tokens: Seq<Lexeme>, pos: nat, message: Seq<char>) -> Parse<T> {
    Parse::Failed { token: token_at(tokens, pos), message, used: 0 }
}

/// The operators of a level of left-associative operators; level 0 binds tightest.
pub open spec fn operator_of(level: nat, kind: TokenKind) -> bool {
    if level == 0 {
        kind == TokenKind::Slash || kind == TokenKind::Star
    } else if level == 1 {
        kind == TokenKind::Minus || kind == TokenKind::Plus
    } else if level == 2 {
        kind == TokenKind::Greater || kind == TokenKind::GreaterEqual || kind == TokenKind::Less
            || kind == TokenKind::LessEqual
    } else if level == 3 {
        kind == TokenKind::BangEqual || kind == TokenKind::EqualEqual
    } else if level == 4 {
        kind == TokenKind::And
    } else if level == 5 {
        kind == TokenKind::Or
    } else {
        false
    }
}

/// Two operands joined by an operator of a level: `and` and `or` make a
/// logical expression, every other operator a binary one.
pub open spec fn combined(level: nat, left: ExprModel, operator: Lexeme, right: ExprModel) -> ExprModel {
    if level >= 4 {
        ExprModel::Logical { left: Box::new(left), operator, right: Box::new(right) }
    } else {
        ExprModel::Binary { left: Box::new(left), operator, right: Box::new(right) }
    }
}

/// The kinds of tokens that are constants.
pub open spec fn is_literal(kind: TokenKind) -> bool {
    kind == TokenKind::False || kind == TokenKind::True || kind == TokenKind::Nil || kind
        == TokenKind::Number || kind == TokenKind::String
}

/// The rest of a parenthesized expression, whose opening parenthesis lies
/// before `pos`.
#[verifier::opaque]
pub open spec fn grouping(tokens: Seq<Lexeme>, pos: nat) -> Parse<ExprModel>
    decreases ahead(tokens, pos), 40int,
{
    match closed(
        tokens,
        pos,
        expression(tokens, pos),
        TokenKind::RightParen,
        "Expect ')' after expression."@,
    ) {
        Parse::Done { value, used } => Parse::Done {
            value: ExprModel::Grouping { expression: Box::new(value) },
            used,
        },
        Parse::Failed { token, message, used } => Parse::Failed { token, message, used },
    }
}

/// The rest of `super.method`, whose keyword lies just before `pos`.
pub open spec fn super_rest(tokens: Seq<Lexeme>, pos: nat) -> Parse<ExprModel> {
    if !at(tokens, pos, TokenKind::Dot) {
        failed_at(tokens, pos, "Expect '.' after 'super'."@)
    } else if !at(tokens, pos + 1, TokenKind::Identifier) {
        after(1, failed_at(tokens, pos + 1, "Expect superclass method name."@))
    } else {
        Parse::Done {
            value: ExprModel::Super {
                keyword: token_at(tokens, (pos - 1) as nat),
                method: token_at(tokens, pos + 1),
            },
            used: 2,
        }
    }
}

/// A constant, a parenthesized expression, `this`, `super.method`, or a name.
#[verifier::opaque]
pub open spec fn primary(tokens: Seq<Lexeme>, pos: nat) -> Parse<ExprModel>
    decreases ahead(tokens, pos), 0int,
{
    if more(tokens, pos) && is_literal(token_at(tokens, pos).kind) {
        Parse::Done { value: ExprModel::Literal { value: token_at(tokens, pos) }, used: 1 }
    } else if at(tokens, pos, TokenKind::LeftParen) {
        after(1, grouping(tokens, pos + 1))
    } else if at(tokens, pos, TokenKind::This) {
        Parse::Done { value: ExprModel::This { keyword: token_at(tokens, pos) }, used: 1 }
    } else if at(tokens, pos, TokenKind::Super) {
        after(1, super_rest(tokens, pos + 1))
    } else if at(tokens, pos, TokenKind::Identifier) {
        Parse::Done { value: ExprModel::Variable { name: token_at(tokens, pos) }, used: 1 }
    } else {
        failed_at(tokens, pos, "Expect expression."@)
    }
}

/// The arguments of a call from `pos` on, after those in `taken`.
#[verifier::opaque]
pub open spec fn arguments(tokens: Seq<Lexeme>, pos: nat, taken: Seq<ExprModel>) -> Parse<
    Seq<ExprModel>,
>
    decreases ahead(tokens, pos), 32int,
{
    if taken.len() >= 255 {
        failed_at(tokens, pos, "Can't have more than 255 arguments."@)
    } else {
        match expression(tokens, pos) {
            Parse::Done { value, used } => if at(tokens, pos + used, TokenKind::Comma) {
                after(used + 1, arguments(tokens, pos + used + 1, taken.push(value)))
            } else {
                Parse::Done { value: taken.push(value), used }
            },
            Parse::Failed { token, message, used } => Parse::Failed { token, message, used },
        }
    }
}

/// The rest of a call whose opening parenthesis lies before `pos`.
#[verifier::opaque]
pub open spec fn finish_call(tokens: Seq<Lexeme>, pos: nat, callee: ExprModel) -> Parse<ExprModel>
    decreases ahead(tokens, pos), 33int,
{
    let list = if at(tokens, pos, TokenKind::RightParen) {
        Parse::Done { value: Seq::<ExprModel>::empty(), used: 0 }
    } else {
        arguments(tokens, pos, Seq::empty())
    };
    match list {
        Parse::Done { value, used } => if at(tokens, pos + used, TokenKind::RightParen) {
            Parse::Done {
                value: ExprModel::Call {
                    callee: Box::new(callee),
                    paren: token_at(tokens, pos + used),
                    arguments: value,
                },
                used: used + 1,
            }
        } else {
            Parse::Failed { token: token_at(tokens, pos + used), message: "Expect ')' after arguments."@, used }
        },
        Parse::Failed { token, message, used } => Parse::Failed { token, message, used },
    }
}

/// The calls and property reads that follow `callee`.
#[verifier::opaque]
pub open spec fn call_rest(tokens: Seq<Lexeme>, pos: nat, callee: ExprModel) -> Parse<ExprModel>
    decreases ahead(tokens, pos), 1int,
{
    if at(tokens, pos, TokenKind::LeftParen) {
        match finish_call(tokens, pos + 1, callee) {
            Parse::Done { value, used } => after(used + 1, call_rest(tokens, pos + 1 + used, value)),
            Parse::Failed { token, message, used } => Parse::Failed { token, message, used: used + 1 },
        }
    } else if at(tokens, pos, TokenKind::Dot) {
        if at(tokens, pos + 1, TokenKind::Identifier) {
            after(
                2,
                call_rest(
                    tokens,
                    pos + 2,
                    ExprModel::Get { object: Box::new(callee), name: token_at(tokens, pos + 1) },
                ),
            )
        } else {
            after(1, failed_at(tokens, pos + 1, "Expect property name after '.'."@))
        }
    } else {
        Parse::Done { value: callee, used: 0 }
    }
}

/// A primary expression with the calls and property reads that follow it.
#[verifier::opaque]
pub open spec fn call(tokens: Seq<Lexeme>, pos: nat) -> Parse<ExprModel>
    decreases ahead(tokens, pos), 2int,
{
    match primary(tokens, pos) {
        Parse::Done { value, used } => after(used, call_rest(tokens, pos + used, value)),
        Parse::Failed { token, message, used } => Parse::Failed { token, message, used },
    }
}

/// An expression with its leading `!` and `-`.
#[verifier::opaque]
pub open spec fn unary(tokens: Seq<Lexeme>, pos: nat) -> Parse<ExprModel>
    decreases ahead(tokens, pos), 3int,
{
    if at(tokens, pos, TokenKind::Bang) || at(tokens, pos, TokenKind::Minus) {
        match unary(tokens, pos + 1) {
            Parse::Done { value, used } => Parse::Done {
                value: ExprModel::Unary { operator: token_at(tokens, pos), right: Box::new(value) },
                used: used + 1,
            },
            Parse::Failed { token, message, used } => Parse::Failed { token, message, used: used + 1 },
        }
    } else {
        call(tokens, pos)
    }
}

/// An operand of the operators of a level: an expression of the next
/// tighter level.
#[verifier::opaque]
pub open spec fn operand(tokens: Seq<Lexeme>, level: nat, pos: nat) -> Parse<ExprModel>
    decreases ahead(tokens, pos), 3 * level + 4,
{
    if level == 0 {
        unary(tokens, pos)
    } else {
        binary(tokens, (level - 1) as nat, pos)
    }
}

/// The operators of a level and their right operands that follow `left`.
#[verifier::opaque]
pub open spec fn binary_rest(tokens: Seq<Lexeme>, level: nat, pos: nat, left: ExprModel) -> Parse<
    ExprModel,
>
    decreases ahead(tokens, pos), 3 * level + 5,
{
    if more(tokens, pos) && operator_of(level, token_at(tokens, pos).kind) {
        match operand(tokens, level, pos + 1) {
            Parse::Done { value, used } => after(
                used + 1,
                binary_rest(
                    tokens,
                    level,
                    pos + 1 + used,
                    combined(level, left, token_at(tokens, pos), value),
                ),
            ),
            Parse::Failed { token, message, used } => Parse::Failed { token, message, used: used + 1 },
        }
    } else {
        Parse::Done { value: left, used: 0 }
    }
}

/// A chain of left-associative operators of a level.
#[verifier::opaque]
pub open spec fn binary(tokens: Seq<Lexeme>, level: nat, pos: nat) -> Parse<ExprModel>
    decreases ahead(tokens, pos), 3 * level + 6,
{
    match operand(tokens, level, pos) {
        Parse::Done { value, used } => after(used, binary_rest(tokens, level, pos + used, value)),
        Parse::Failed { token, message, used } => Parse::Failed { token, message, used },
    }
}

/// An assignment to a variable or to a property, or an expression of the
/// loosest level of operators. Assignment binds to the right.
#[verifier::opaque]
pub open spec fn assignment(tokens: Seq<Lexeme>, pos: nat) -> Parse<ExprModel>
    decreases ahead(tokens, pos), 30int,
{
    match binary(tokens, 5, pos) {
        Parse::Done { value: target, used } => if at(tokens, pos + used, TokenKind::Equal) {
            match assignment(tokens, pos + used + 1) {
                Parse::Done { value, used: more_used } => match target {
                    ExprModel::Variable { name } => Parse::Done {
                        value: ExprModel::Assign { name, value: Box::new(value) },
                        used: used + 1 + more_used,
                    },
                    ExprModel::Get { object, name } => Parse::Done {
                        value: ExprModel::SetProperty { object, name, value: Box::new(value) },
                        used: used + 1 + more_used,
                    },
                    _ => Parse::Failed {
                        token: token_at(tokens, pos + used),
                        message: "Invalid assignment target."@,
                        used: used + 1 + more_used,
                    },
                },
                Parse::Failed { token, message, used: more_used } => Parse::Failed {
                    token,
                    message,
                    used: used + 1 + more_used,
                },
            }
        } else {
            Parse::Done { value: target, used }
        },
        Parse::Failed { token, message, used } => Parse::Failed { token, message, used },
    }
}

/// An expression.
#[verifier::opaque]
pub open spec fn expression(tokens: Seq<Lexeme>, pos: nat) -> Parse<ExprModel>
    decreases ahead(tokens, pos), 31int,
{
    assignment(tokens, pos)
}

/// Counting tokens taken before twice is counting their sum once.
pub proof fn lemma_after_after<T>(first: nat, second: nat, outcome: Parse<T>)
    ensures
        after(first, after(second, outcome)) == after(first + second, outcome),
        after(0, outcome) == outcome,
{
}

/// A value that became a statement by adding what stands around it.
pub open spec fn wrapped<A, B>(outcome: Parse<A>, wrap: spec_fn(A) -> B) -> Parse<B> {
    match outcome {
        Parse::Done { value, used } => Parse::Done { value: wrap(value), used },
        Parse::Failed { token, message, used } => Parse::Failed { token, message, used },
    }
}

/// An expression and its semicolon.
pub open spec fn expression_statement(tokens: Seq<Lexeme>, pos: nat) -> Parse<StmtModel> {
    wrapped(
        closed(
            tokens,
            pos,
            expression(tokens, pos),
            TokenKind::Semicolon,
            "Expect ';' after expression."@,
        ),
        |expression: ExprModel| StmtModel::Expression { expression },
    )
}

/// The rest of a `print` statement, whose keyword lies before `pos`.
pub open spec fn print_statement(tokens: Seq<Lexeme>, pos: nat) -> Parse<StmtModel> {
    wrapped(
        closed(tokens, pos, expression(tokens, pos), TokenKind::Semicolon, "Expect ';' after value."@),
        |expression: ExprModel| StmtModel::Print { expression },
    )
}

/// An expression where the token at `pos` is not of the kind, and nothing
/// where it is.
pub open spec fn unless(tokens: Seq<Lexeme>, pos: nat, kind: TokenKind) -> Parse<Option<ExprModel>> {
    if at(tokens, pos, kind) {
        Parse::Done { value: None, used: 0 }
    } else {
        wrapped(expression(tokens, pos), |value: ExprModel| Some(value))
    }
}

/// The rest of a `return` statement, whose keyword lies just before `pos`.
pub open spec fn return_statement(tokens: Seq<Lexeme>, pos: nat) -> Parse<StmtModel> {
    wrapped(
        closed(
            tokens,
            pos,
            unless(tokens, pos, TokenKind::Semicolon),
            TokenKind::Semicolon,
            "Expect ';' after 'return'."@,
        ),
        |value: Option<ExprModel>|
            StmtModel::Return { keyword: token_at(tokens, (pos - 1) as nat), value },
    )
}

/// The rest of a variable declaration, whose keyword lies before `pos`.
pub open spec fn var_declaration(tokens: Seq<Lexeme>, pos: nat) -> Parse<StmtModel> {
    if !at(tokens, pos, TokenKind::Identifier) {
        failed_at(tokens, pos, "Expect variable name."@)
    } else {
        let initializer = if at(tokens, pos + 1, TokenKind::Equal) {
            after(1, wrapped(expression(tokens, pos + 2), |value: ExprModel| Some(value)))
        } else {
            Parse::Done { value: None, used: 0 }
        };
        after(
            1,
            wrapped(
                closed(
                    tokens,
                    pos + 1,
                    initializer,
                    TokenKind::Semicolon,
                    "Expect ';' after variable declaration."@,
                ),
                |initializer: Option<ExprModel>|
                    StmtModel::Var { name: token_at(tokens, pos), initializer },
            ),
        )
    }
}

/// The rest of a condition in parentheses, whose opening parenthesis lies
/// before `pos`.
pub open spec fn condition(tokens: Seq<Lexeme>, pos: nat, closing: Seq<char>) -> Parse<ExprModel> {
    closed(tokens, pos, expression(tokens, pos), TokenKind::RightParen, closing)
}

/// The constant `true` that stands for the missing condition of a `for` loop.
pub open spec fn always(semicolon: Lexeme) -> Lexeme {
    Lexeme {
        kind: TokenKind::True,
        text: "true"@,
        literal: Constant::Bool(true),
        line: semicolon.line,
        scanner_index: semicolon.scanner_index,
    }
}

/// The `while` loop that a `for` loop abbreviates.
pub open spec fn desugared(
    initializer: Option<StmtModel>,
    condition: Option<ExprModel>,
    semicolon: Lexeme,
    increment: Option<ExprModel>,
    body: StmtModel,
) -> StmtModel {
    let stepped = match increment {
        Some(expression) => StmtModel::Block {
            statements: seq![body, StmtModel::Expression { expression }],
        },
        None => body,
    };
    let looped = StmtModel::While {
        condition: match condition {
            Some(given) => given,
            None => ExprModel::Literal { value: always(semicolon) },
        },
        body: Box::new(stepped),
    };
    match initializer {
        Some(first) => StmtModel::Block { statements: seq![first, looped] },
        None => looped,
    }
}

/// The first clause of a `for` loop.
pub open spec fn for_initializer(tokens: Seq<Lexeme>, pos: nat) -> Parse<Option<StmtModel>> {
    if at(tokens, pos, TokenKind::Semicolon) {
        Parse::Done { value: None, used: 1 }
    } else if at(tokens, pos, TokenKind::Var) {
        after(1, wrapped(var_declaration(tokens, pos + 1), |first: StmtModel| Some(first)))
    } else {
        wrapped(expression_statement(tokens, pos), |first: StmtModel| Some(first))
    }
}

/// The parameters of a function from `pos` on, after those in `taken`.
pub open spec fn parameters(tokens: Seq<Lexeme>, pos: nat, taken: Seq<Lexeme>) -> Parse<Seq<Lexeme>>
    decreases ahead(tokens, pos),
{
    if taken.len() >= 255 {
        failed_at(tokens, pos, "Can't have more than 255 arguments."@)
    } else if !at(tokens, pos, TokenKind::Identifier) {
        failed_at(tokens, pos, "Expect parameter name."@)
    } else if at(tokens, pos + 1, TokenKind::Comma) {
        after(2, parameters(tokens, pos + 2, taken.push(token_at(tokens, pos))))
    } else {
        Parse::Done { value: taken.push(token_at(tokens, pos)), used: 1 }
    }
}

/// The keywords that a statement can begin with.
pub open spec fn starts_statement(kind: TokenKind) -> bool {
    kind == TokenKind::Class || kind == TokenKind::Fun || kind == TokenKind::Var || kind
        == TokenKind::For || kind == TokenKind::If || kind == TokenKind::While || kind
        == TokenKind::Print || kind == TokenKind::Return
}

/// The number of tokens from `pos` on that the parser skips after an error:
/// up to the end of a statement or the beginning of one.
pub open spec fn skipped(tokens: Seq<Lexeme>, pos: nat) -> nat
    decreases ahead(tokens, pos),
{
    if !more(tokens, pos) {
        0
    } else if pos > 0 && token_at(tokens, (pos - 1) as nat).kind == TokenKind::Semicolon {
        0
    } else if starts_statement(token_at(tokens, pos).kind) {
        0
    } else {
        1 + skipped(tokens, pos + 1)
    }
}

/// The number of tokens that the parser passes to recover from an error at `pos`.
pub open spec fn synchronized(tokens: Seq<Lexeme>, pos: nat) -> nat {
    if more(tokens, pos) {
        1 + skipped(tokens, pos + 1)
    } else {
        0
    }
}

/// A round of a list takes at least one token.
pub open spec fn stride(used: nat) -> nat {
    if used == 0 {
        1
    } else {
        used
    }
}

/// The rest of an `if` statement, whose keyword lies before `pos`.
#[verifier::opaque]
pub open spec fn if_statement(tokens: Seq<Lexeme>, pos: nat) -> Parse<StmtModel>
    decreases ahead(tokens, pos), 50int,
{
    if !at(tokens, pos, TokenKind::LeftParen) {
        failed_at(tokens, pos, "Expect '(' after 'if'."@)
    } else {
        match condition(tokens, pos + 1, "Expect ')' after if condition."@) {
            Parse::Failed { token, message, used } => Parse::Failed { token, message, used: used + 1 },
            Parse::Done { value: tested, used } => match statement(tokens, pos + 1 + used) {
                Parse::Failed { token, message, used: more_used } => Parse::Failed {
                    token,
                    message,
                    used: 1 + used + more_used,
                },
                Parse::Done { value: then_branch, used: then_used } => if at(
                    tokens,
                    pos + 1 + used + then_used,
                    TokenKind::Else,
                ) {
                    match statement(tokens, pos + 1 + used + then_used + 1) {
                        Parse::Failed { token, message, used: else_used } => Parse::Failed {
                            token,
                            message,
                            used: 1 + used + then_used + 1 + else_used,
                        },
                        Parse::Done { value: else_branch, used: else_used } => Parse::Done {
                            value: StmtModel::If {
                                condition: tested,
                                then_branch: Box::new(then_branch),
                                else_branch: Some(Box::new(else_branch)),
                            },
                            used: 1 + used + then_used + 1 + else_used,
                        },
                    }
                } else {
                    Parse::Done {
                        value: StmtModel::If {
                            condition: tested,
                            then_branch: Box::new(then_branch),
                            else_branch: None,
                        },
                        used: 1 + used + then_used,
                    }
                },
            },
        }
    }
}

/// The rest of a `while` statement, whose keyword lies before `pos`.
#[verifier::opaque]
pub open spec fn while_statement(tokens: Seq<Lexeme>, pos: nat) -> Parse<StmtModel>
    decreases ahead(tokens, pos), 50int,
{
    if !at(tokens, pos, TokenKind::LeftParen) {
        failed_at(tokens, pos, "Expect '(' after 'while'."@)
    } else {
        match condition(tokens, pos + 1, "Expect ')' after condition."@) {
            Parse::Failed { token, message, used } => Parse::Failed { token, message, used: used + 1 },
            Parse::Done { value: tested, used } => match statement(tokens, pos + 1 + used) {
                Parse::Failed { token, message, used: more_used } => Parse::Failed {
                    token,
                    message,
                    used: 1 + used + more_used,
                },
                Parse::Done { value: body, used: body_used } => Parse::Done {
                    value: StmtModel::While { condition: tested, body: Box::new(body) },
                    used: 1 + used + body_used,
                },
            },
        }
    }
}

/// The rest of a `for` statement, whose keyword lies before `pos`.
#[verifier::opaque]
pub open spec fn for_statement(tokens: Seq<Lexeme>, pos: nat) -> Parse<StmtModel>
    decreases ahead(tokens, pos), 50int,
{
    if !at(tokens, pos, TokenKind::LeftParen) {
        failed_at(tokens, pos, "Expect '(' after 'for'."@)
    } else {
        match for_initializer(tokens, pos + 1) {
            Parse::Failed { token, message, used } => Parse::Failed { token, message, used: used + 1 },
            Parse::Done { value: initializer, used: first } => match closed(
                tokens,
                pos + 1 + first,
                unless(tokens, pos + 1 + first, TokenKind::Semicolon),
                TokenKind::Semicolon,
                "Expect ';' after loop condition."@,
            ) {
                Parse::Failed { token, message, used } => Parse::Failed {
                    token,
                    message,
                    used: used + 1 + first,
                },
                Parse::Done { value: tested, used: second } => match closed(
                    tokens,
                    pos + 1 + first + second,
                    unless(tokens, pos + 1 + first + second, TokenKind::RightParen),
                    TokenKind::RightParen,
                    "Expect ')' after for clauses."@,
                ) {
                    Parse::Failed { token, message, used } => Parse::Failed {
                        token,
                        message,
                        used: used + 1 + first + second,
                    },
                    Parse::Done { value: increment, used: third } => match statement(
                        tokens,
                        pos + 1 + first + second + third,
                    ) {
                        Parse::Failed { token, message, used } => Parse::Failed {
                            token,
                            message,
                            used: used + 1 + first + second + third,
                        },
                        Parse::Done { value: body, used } => Parse::Done {
                            value: desugared(
                                initializer,
                                tested,
                                token_at(tokens, (pos + first + second) as nat),
                                increment,
                                body,
                            ),
                            used: used + 1 + first + second + third,
                        },
                    },
                },
            },
        }
    }
}

/// The rest of a block from `pos` on, after the statements in `taken`; the
/// opening brace lies before.
#[verifier::opaque]
pub open spec fn block_rest(tokens: Seq<Lexeme>, pos: nat, taken: Seq<StmtModel>) -> Parse<
    Seq<StmtModel>,
>
    decreases ahead(tokens, pos), 53int,
{
    if more(tokens, pos) && token_at(tokens, pos).kind != TokenKind::RightBrace {
        match declaration(tokens, pos) {
            Parse::Done { value, used } => after(
                stride(used),
                block_rest(tokens, pos + stride(used), taken.push(value)),
            ),
            Parse::Failed { token, message, used } => Parse::Failed { token, message, used },
        }
    } else if at(tokens, pos, TokenKind::RightBrace) {
        Parse::Done { value: taken, used: 1 }
    } else {
        failed_at(tokens, pos, "Expect '}' after block."@)
    }
}

/// A statement that is no declaration.
#[verifier::opaque]
pub open spec fn statement(tokens: Seq<Lexeme>, pos: nat) -> Parse<StmtModel>
    decreases ahead(tokens, pos), 51int,
{
    if at(tokens, pos, TokenKind::For) {
        after(1, for_statement(tokens, pos + 1))
    } else if at(tokens, pos, TokenKind::If) {
        after(1, if_statement(tokens, pos + 1))
    } else if at(tokens, pos, TokenKind::Print) {
        after(1, print_statement(tokens, pos + 1))
    } else if at(tokens, pos, TokenKind::Return) {
        after(1, return_statement(tokens, pos + 1))
    } else if at(tokens, pos, TokenKind::While) {
        after(1, while_statement(tokens, pos + 1))
    } else if at(tokens, pos, TokenKind::LeftBrace) {
        after(
            1,
            wrapped(
                block_rest(tokens, pos + 1, Seq::empty()),
                |statements: Seq<StmtModel>| StmtModel::Block { statements },
            ),
        )
    } else {
        expression_statement(tokens, pos)
    }
}

/// A function or a method from its name on; `kind` says in the messages
/// which of the two it is.
#[verifier::opaque]
pub open spec fn function(tokens: Seq<Lexeme>, pos: nat, kind: Seq<char>) -> Parse<FunctionModel>
    decreases ahead(tokens, pos), 54int,
{
    if !at(tokens, pos, TokenKind::Identifier) {
        failed_at(tokens, pos, "Expect "@ + kind + " name."@)
    } else if !at(tokens, pos + 1, TokenKind::LeftParen) {
        after(1, failed_at(tokens, pos + 1, "Expect '(' after "@ + kind + " name"@))
    } else {
        let list = if at(tokens, pos + 2, TokenKind::RightParen) {
            Parse::Done { value: Seq::<Lexeme>::empty(), used: 0 }
        } else {
            parameters(tokens, pos + 2, Seq::empty())
        };
        match list {
            Parse::Failed { token, message, used } => Parse::Failed { token, message, used: used + 2 },
            Parse::Done { value: params, used } => if !at(
                tokens,
                pos + 2 + used,
                TokenKind::RightParen,
            ) {
                after(2 + used, failed_at(tokens, pos + 2 + used, "Expect ')' after parameters."@))
            } else if !at(tokens, pos + 3 + used, TokenKind::LeftBrace) {
                after(
                    3 + used,
                    failed_at(tokens, pos + 3 + used, "Expect '{' before "@ + kind + " body."@),
                )
            } else {
                match block_rest(tokens, pos + 4 + used, Seq::empty()) {
                    Parse::Failed { token, message, used: more_used } => Parse::Failed {
                        token,
                        message,
                        used: more_used + 4 + used,
                    },
                    Parse::Done { value: body, used: more_used } => Parse::Done {
                        value: FunctionModel { name: token_at(tokens, pos), params, body },
                        used: more_used + 4 + used,
                    },
                }
            },
        }
    }
}

/// The rest of a class body from `pos` on, after the methods in `taken`.
#[verifier::opaque]
pub open spec fn methods_rest(tokens: Seq<Lexeme>, pos: nat, taken: Seq<FunctionModel>) -> Parse<
    Seq<FunctionModel>,
>
    decreases ahead(tokens, pos), 55int,
{
    if more(tokens, pos) && token_at(tokens, pos).kind != TokenKind::RightBrace {
        match function(tokens, pos, "method"@) {
            Parse::Done { value, used } => after(
                stride(used),
                methods_rest(tokens, pos + stride(used), taken.push(value)),
            ),
            Parse::Failed { token, message, used } => Parse::Failed { token, message, used },
        }
    } else if at(tokens, pos, TokenKind::RightBrace) {
        Parse::Done { value: taken, used: 1 }
    } else {
        failed_at(tokens, pos, "Expect '}' after class body."@)
    }
}

/// The rest of a class declaration, whose keyword lies before `pos`.
#[verifier::opaque]
pub open spec fn class_declaration(tokens: Seq<Lexeme>, pos: nat) -> Parse<StmtModel>
    decreases ahead(tokens, pos), 56int,
{
    if !at(tokens, pos, TokenKind::Identifier) {
        failed_at(tokens, pos, "Expect class name."@)
    } else if at(tokens, pos + 1, TokenKind::Less) && !at(tokens, pos + 2, TokenKind::Identifier) {
        after(2, failed_at(tokens, pos + 2, "Expect superclass name."@))
    } else {
        let superclass = if at(tokens, pos + 1, TokenKind::Less) {
            Some(token_at(tokens, pos + 2))
        } else {
            None
        };
        let body: nat = if at(tokens, pos + 1, TokenKind::Less) {
            pos + 3
        } else {
            pos + 1
        };
        if !at(tokens, body, TokenKind::LeftBrace) {
            after((body - pos) as nat, failed_at(tokens, body, "Expect '{' before class body."@))
        } else {
            after(
                (body + 1 - pos) as nat,
                wrapped(
                    methods_rest(tokens, body + 1, Seq::empty()),
                    |methods: Seq<FunctionModel>|
                        StmtModel::Class { name: token_at(tokens, pos), superclass, methods },
                ),
            )
        }
    }
}

/// One declaration. After an error the parser passes on to the beginning
/// of the next statement.
#[verifier::opaque]
pub open spec fn declaration(tokens: Seq<Lexeme>, pos: nat) -> Parse<StmtModel>
    decreases ahead(tokens, pos), 52int,
{
    let attempt = if at(tokens, pos, TokenKind::Class) {
        after(1, class_declaration(tokens, pos + 1))
    } else if at(tokens, pos, TokenKind::Fun) {
        after(
            1,
            wrapped(
                function(tokens, pos + 1, "function"@),
                |declared: FunctionModel| StmtModel::Function(declared),
            ),
        )
    } else if at(tokens, pos, TokenKind::Var) {
        after(1, var_declaration(tokens, pos + 1))
    } else {
        statement(tokens, pos)
    };
    match attempt {
        Parse::Done { value, used } => attempt,
        Parse::Failed { token, message, used } => Parse::Failed {
            token,
            message,
            used: used + synchronized(tokens, pos + used),
        },
    }
}

/// A syntax error as mathematics.
pub ghost struct Mistake {
    pub token: Lexeme,
    pub message: Seq<char>,
}

/// What parsing a whole program gives.
pub ghost struct ProgramModel {
    pub statements: Seq<StmtModel>,
    pub errors: Seq<Mistake>,
}

/// The program from `pos` on, after the statements and errors so far: a
/// declaration that parses adds a statement, one that does not adds an error.
pub open spec fn program_rest(
    tokens: Seq<Lexeme>,
    pos: nat,
    statements: Seq<StmtModel>,
    errors: Seq<Mistake>,
) -> ProgramModel
    decreases ahead(tokens, pos),
{
    if more(tokens, pos) {
        match declaration(tokens, pos) {
            Parse::Done { value, used } => program_rest(
                tokens,
                pos + stride(used),
                statements.push(value),
                errors,
            ),
            Parse::Failed { token, message, used } => program_rest(
                tokens,
                pos + stride(used),
                statements,
                errors.push(Mistake { token, message }),
            ),
        }
    } else {
        ProgramModel { statements, errors }
    }
}

/// The statements and syntax errors of a list of tokens.
pub open spec fn program(tokens: Seq<Lexeme>) -> ProgramModel {
    program_rest(tokens, 0, Seq::empty(), Seq::empty())
}

// The defining equations of the grammar, for the proofs of the parser.

/// The defining equation of `grouping`.
pub proof fn unfold_grouping(tokens: Seq<Lexeme>, pos: nat)
    ensures
        grouping(tokens, pos) == ({
            match closed(
                tokens,
                pos,
                expression(tokens, pos),
                TokenKind::RightParen,
                "Expect ')' after expression."@,
            ) {
                Parse::Done { value, used } => Parse::Done {
                    value: ExprModel::Grouping { expression: Box::new(value) },
                    used,
                },
                Parse::Failed { token, message, used } => Parse::Failed { token, message, used },
            }
        }),
{
    reveal(grouping);
    reveal(expression);
}

/// The defining equation of `primary`.
pub proof fn unfold_primary(tokens: Seq<Lexeme>, pos: nat)
    ensures
        primary(tokens, pos) == ({
            if more(tokens, pos) && is_literal(token_at(tokens, pos).kind) {
                Parse::Done { value: ExprModel::Literal { value: token_at(tokens, pos) }, used: 1 }
            } else if at(tokens, pos, TokenKind::LeftParen) {
                after(1, grouping(tokens, pos + 1))
            } else if at(tokens, pos, TokenKind::This) {
                Parse::Done { value: ExprModel::This { keyword: token_at(tokens, pos) }, used: 1 }
            } else if at(tokens, pos, TokenKind::Super) {
                after(1, super_rest(tokens, pos + 1))
            } else if at(tokens, pos, TokenKind::Identifier) {
                Parse::Done { value: ExprModel::Variable { name: token_at(tokens, pos) }, used: 1 }
            } else {
                failed_at(tokens, pos, "Expect expression."@)
            }
        }),
{
    reveal(primary);
    reveal(grouping);
}

/// The defining equation of `arguments`.
pub proof fn unfold_arguments(tokens: Seq<Lexeme>, pos: nat, taken: Seq<ExprModel>)
    ensures
        arguments(tokens, pos, taken) == ({
            if taken.len() >= 255 {
                failed_at(tokens, pos, "Can't have more than 255 arguments."@)
            } else {
                match expression(tokens, pos) {
                    Parse::Done { value, used } => if at(tokens, pos + used, TokenKind::Comma) {
                        after(used + 1, arguments(tokens, pos + used + 1, taken.push(value)))
                    } else {
                        Parse::Done { value: taken.push(value), used }
                    },
                    Parse::Failed { token, message, used } => Parse::Failed { token, message, used },
                }
            }
        }),
{
    reveal(arguments);
    reveal(expression);
}

/// The defining equation of `finish_call`.
pub proof fn unfold_finish_call(tokens: Seq<Lexeme>, pos: nat, callee: ExprModel)
    ensures
        finish_call(tokens, pos, callee) == ({
            let list = if at(tokens, pos, TokenKind::RightParen) {
                Parse::Done { value: Seq::<ExprModel>::empty(), used: 0 }
            } else {
                arguments(tokens, pos, Seq::empty())
            };
            match list {
                Parse::Done { value, used } => if at(tokens, pos + used, TokenKind::RightParen) {
                    Parse::Done {
                        value: ExprModel::Call {
                            callee: Box::new(callee),
                            paren: token_at(tokens, pos + used),
                            arguments: value,
                        },
                        used: used + 1,
                    }
                } else {
                    Parse::Failed { token: token_at(tokens, pos + used), message: "Expect ')' after arguments."@, used }
                },
                Parse::Failed { token, message, used } => Parse::Failed { token, message, used },
            }
        }),
{
    reveal(finish_call);
    reveal(arguments);
}

/// The defining equation of `call_rest`.
pub proof fn unfold_call_rest(tokens: Seq<Lexeme>, pos: nat, callee: ExprModel)
    ensures
        call_rest(tokens, pos, callee) == ({
            if at(tokens, pos, TokenKind::LeftParen) {
                match finish_call(tokens, pos + 1, callee) {
                    Parse::Done { value, used } => after(used + 1, call_rest(tokens, pos + 1 + used, value)),
                    Parse::Failed { token, message, used } => Parse::Failed { token, message, used: used + 1 },
                }
            } else if at(tokens, pos, TokenKind::Dot) {
                if at(tokens, pos + 1, TokenKind::Identifier) {
                    after(
                        2,
                        call_rest(
                            tokens,
                            pos + 2,
                            ExprModel::Get { object: Box::new(callee), name: token_at(tokens, pos + 1) },
                        ),
                    )
                } else {
                    after(1, failed_at(tokens, pos + 1, "Expect property name after '.'."@))
                }
            } else {
                Parse::Done { value: callee, used: 0 }
            }
        }),
{
    reveal(call_rest);
    reveal(finish_call);
}

/// The defining equation of `call`.
pub proof fn unfold_call(tokens: Seq<Lexeme>, pos: nat)
    ensures
        call(tokens, pos) == ({
            match primary(tokens, pos) {
                Parse::Done { value, used } => after(used, call_rest(tokens, pos + used, value)),
                Parse::Failed { token, message, used } => Parse::Failed { token, message, used },
            }
        }),
{
    reveal(call);
    reveal(call_rest);
    reveal(primary);
}

/// The defining equation of `unary`.
pub proof fn unfold_unary(tokens: Seq<Lexeme>, pos: nat)
    ensures
        unary(tokens, pos) == ({
            if at(tokens, pos, TokenKind::Bang) || at(tokens, pos, TokenKind::Minus) {
                match unary(tokens, pos + 1) {
                    Parse::Done { value, used } => Parse::Done {
                        value: ExprModel::Unary { operator: token_at(tokens, pos), right: Box::new(value) },
                        used: used + 1,
                    },
                    Parse::Failed { token, message, used } => Parse::Failed { token, message, used: used + 1 },
                }
            } else {
                call(tokens, pos)
            }
        }),
{
    reveal(call);
    reveal(unary);
}

/// The defining equation of `operand`.
pub proof fn unfold_operand(tokens: Seq<Lexeme>, level: nat, pos: nat)
    ensures
        operand(tokens, level, pos) == ({
            if level == 0 {
                unary(tokens, pos)
            } else {
                binary(tokens, (level - 1) as nat, pos)
            }
        }),
{
    reveal(operand);
    reveal(binary);
    reveal(unary);
}

/// The defining equation of `binary_rest`.
pub proof fn unfold_binary_rest(tokens: Seq<Lexeme>, level: nat, pos: nat, left: ExprModel)
    ensures
        binary_rest(tokens, level, pos, left) == ({
            if more(tokens, pos) && operator_of(level, token_at(tokens, pos).kind) {
                match operand(tokens, level, pos + 1) {
                    Parse::Done { value, used } => after(
                        used + 1,
                        binary_rest(
                            tokens,
                            level,
                            pos + 1 + used,
                            combined(level, left, token_at(tokens, pos), value),
                        ),
                    ),
                    Parse::Failed { token, message, used } => Parse::Failed { token, message, used: used + 1 },
                }
            } else {
                Parse::Done { value: left, used: 0 }
            }
        }),
{
    reveal(binary_rest);
    reveal(operand);
}

/// The defining equation of `binary`.
pub proof fn unfold_binary(tokens: Seq<Lexeme>, level: nat, pos: nat)
    ensures
        binary(tokens, level, pos) == ({
            match operand(tokens, level, pos) {
                Parse::Done { value, used } => after(used, binary_rest(tokens, level, pos + used, value)),
                Parse::Failed { token, message, used } => Parse::Failed { token, message, used },
            }
        }),
{
    reveal(binary);
    reveal(binary_rest);
    reveal(operand);
}

/// The defining equation of `assignment`.
pub proof fn unfold_assignment(tokens: Seq<Lexeme>, pos: nat)
    ensures
        assignment(tokens, pos) == ({
            match binary(tokens, 5, pos) {
                Parse::Done { value: target, used } => if at(tokens, pos + used, TokenKind::Equal) {
                    match assignment(tokens, pos + used + 1) {
                        Parse::Done { value, used: more_used } => match target {
                            ExprModel::Variable { name } => Parse::Done {
                                value: ExprModel::Assign { name, value: Box::new(value) },
                                used: used + 1 + more_used,
                            },
                            ExprModel::Get { object, name } => Parse::Done {
                                value: ExprModel::SetProperty { object, name, value: Box::new(value) },
                                used: used + 1 + more_used,
                            },
                            _ => Parse::Failed {
                                token: token_at(tokens, pos + used),
                                message: "Invalid assignment target."@,
                                used: used + 1 + more_used,
                            },
                        },
                        Parse::Failed { token, message, used: more_used } => Parse::Failed {
                            token,
                            message,
                            used: used + 1 + more_used,
                        },
                    }
                } else {
                    Parse::Done { value: target, used }
                },
                Parse::Failed { token, message, used } => Parse::Failed { token, message, used },
            }
        }),
{
    reveal(assignment);
    reveal(binary);
}

/// The defining equation of `expression`.
pub proof fn unfold_expression(tokens: Seq<Lexeme>, pos: nat)
    ensures
        expression(tokens, pos) == ({
            assignment(tokens, pos)
        }),
{
    reveal(expression);
    reveal(assignment);
}

/// The defining equation of `if_statement`.
pub proof fn unfold_if_statement(tokens: Seq<Lexeme>, pos: nat)
    ensures
        if_statement(tokens, pos) == ({
            if !at(tokens, pos, TokenKind::LeftParen) {
                failed_at(tokens, pos, "Expect '(' after 'if'."@)
            } else {
                match condition(tokens, pos + 1, "Expect ')' after if condition."@) {
                    Parse::Failed { token, message, used } => Parse::Failed { token, message, used: used + 1 },
                    Parse::Done { value: tested, used } => match statement(tokens, pos + 1 + used) {
                        Parse::Failed { token, message, used: more_used } => Parse::Failed {
                            token,
                            message,
                            used: 1 + used + more_used,
                        },
                        Parse::Done { value: then_branch, used: then_used } => if at(
                            tokens,
                            pos + 1 + used + then_used,
                            TokenKind::Else,
                        ) {
                            match statement(tokens, pos + 1 + used + then_used + 1) {
                                Parse::Failed { token, message, used: else_used } => Parse::Failed {
                                    token,
                                    message,
                                    used: 1 + used + then_used + 1 + else_used,
                                },
                                Parse::Done { value: else_branch, used: else_used } => Parse::Done {
                                    value: StmtModel::If {
                                        condition: tested,
                                        then_branch: Box::new(then_branch),
                                        else_branch: Some(Box::new(else_branch)),
                                    },
                                    used: 1 + used + then_used + 1 + else_used,
                                },
                            }
                        } else {
                            Parse::Done {
                                value: StmtModel::If {
                                    condition: tested,
                                    then_branch: Box::new(then_branch),
                                    else_branch: None,
                                },
                                used: 1 + used + then_used,
                            }
                        },
                    },
                }
            }
        }),
{
    reveal(if_statement);
    reveal(statement);
}

/// The defining equation of `while_statement`.
pub proof fn unfold_while_statement(tokens: Seq<Lexeme>, pos: nat)
    ensures
        while_statement(tokens, pos) == ({
            if !at(tokens, pos, TokenKind::LeftParen) {
                failed_at(tokens, pos, "Expect '(' after 'while'."@)
            } else {
                match condition(tokens, pos + 1, "Expect ')' after condition."@) {
                    Parse::Failed { token, message, used } => Parse::Failed { token, message, used: used + 1 },
                    Parse::Done { value: tested, used } => match statement(tokens, pos + 1 + used) {
                        Parse::Failed { token, message, used: more_used } => Parse::Failed {
                            token,
                            message,
                            used: 1 + used + more_used,
                        },
                        Parse::Done { value: body, used: body_used } => Parse::Done {
                            value: StmtModel::While { condition: tested, body: Box::new(body) },
                            used: 1 + used + body_used,
                        },
                    },
                }
            }
        }),
{
    reveal(while_statement);
    reveal(statement);
}

/// The defining equation of `for_statement`.
pub proof fn unfold_for_statement(tokens: Seq<Lexeme>, pos: nat)
    ensures
        for_statement(tokens, pos) == ({
            if !at(tokens, pos, TokenKind::LeftParen) {
                failed_at(tokens, pos, "Expect '(' after 'for'."@)
            } else {
                match for_initializer(tokens, pos + 1) {
                    Parse::Failed { token, message, used } => Parse::Failed { token, message, used: used + 1 },
                    Parse::Done { value: initializer, used: first } => match closed(
                        tokens,
                        pos + 1 + first,
                        unless(tokens, pos + 1 + first, TokenKind::Semicolon),
                        TokenKind::Semicolon,
                        "Expect ';' after loop condition."@,
                    ) {
                        Parse::Failed { token, message, used } => Parse::Failed {
                            token,
                            message,
                            used: used + 1 + first,
                        },
                        Parse::Done { value: tested, used: second } => match closed(
                            tokens,
                            pos + 1 + first + second,
                            unless(tokens, pos + 1 + first + second, TokenKind::RightParen),
                            TokenKind::RightParen,
                            "Expect ')' after for clauses."@,
                        ) {
                            Parse::Failed { token, message, used } => Parse::Failed {
                                token,
                                message,
                                used: used + 1 + first + second,
                            },
                            Parse::Done { value: increment, used: third } => match statement(
                                tokens,
                                pos + 1 + first + second + third,
                            ) {
                                Parse::Failed { token, message, used } => Parse::Failed {
                                    token,
                                    message,
                                    used: used + 1 + first + second + third,
                                },
                                Parse::Done { value: body, used } => Parse::Done {
                                    value: desugared(
                                        initializer,
                                        tested,
                                        token_at(tokens, (pos + first + second) as nat),
                                        increment,
                                        body,
                                    ),
                                    used: used + 1 + first + second + third,
                                },
                            },
                        },
                    },
                }
            }
        }),
{
    reveal(for_statement);
    reveal(statement);
}

/// The defining equation of `block_rest`.
pub proof fn unfold_block_rest(tokens: Seq<Lexeme>, pos: nat, taken: Seq<StmtModel>)
    ensures
        block_rest(tokens, pos, taken) == ({
            if more(tokens, pos) && token_at(tokens, pos).kind != TokenKind::RightBrace {
                match declaration(tokens, pos) {
                    Parse::Done { value, used } => after(
                        stride(used),
                        block_rest(tokens, pos + stride(used), taken.push(value)),
                    ),
                    Parse::Failed { token, message, used } => Parse::Failed { token, message, used },
                }
            } else if at(tokens, pos, TokenKind::RightBrace) {
                Parse::Done { value: taken, used: 1 }
            } else {
                failed_at(tokens, pos, "Expect '}' after block."@)
            }
        }),
{
    reveal(block_rest);
    reveal(declaration);
}

/// The defining equation of `statement`.
pub proof fn unfold_statement(tokens: Seq<Lexeme>, pos: nat)
    ensures
        statement(tokens, pos) == ({
            if at(tokens, pos, TokenKind::For) {
                after(1, for_statement(tokens, pos + 1))
            } else if at(tokens, pos, TokenKind::If) {
                after(1, if_statement(tokens, pos + 1))
            } else if at(tokens, pos, TokenKind::Print) {
                after(1, print_statement(tokens, pos + 1))
            } else if at(tokens, pos, TokenKind::Return) {
                after(1, return_statement(tokens, pos + 1))
            } else if at(tokens, pos, TokenKind::While) {
                after(1, while_statement(tokens, pos + 1))
            } else if at(tokens, pos, TokenKind::LeftBrace) {
                after(
                    1,
                    wrapped(
                        block_rest(tokens, pos + 1, Seq::empty()),
                        |statements: Seq<StmtModel>| StmtModel::Block { statements },
                    ),
                )
            } else {
                expression_statement(tokens, pos)
            }
        }),
{
    reveal(statement);
    reveal(block_rest);
    reveal(for_statement);
    reveal(if_statement);
    reveal(while_statement);
}

/// The defining equation of `function`.
pub proof fn unfold_function(tokens: Seq<Lexeme>, pos: nat, kind: Seq<char>)
    ensures
        function(tokens, pos, kind) == ({
            if !at(tokens, pos, TokenKind::Identifier) {
                failed_at(tokens, pos, "Expect "@ + kind + " name."@)
            } else if !at(tokens, pos + 1, TokenKind::LeftParen) {
                after(1, failed_at(tokens, pos + 1, "Expect '(' after "@ + kind + " name"@))
            } else {
                let list = if at(tokens, pos + 2, TokenKind::RightParen) {
                    Parse::Done { value: Seq::<Lexeme>::empty(), used: 0 }
                } else {
                    parameters(tokens, pos + 2, Seq::empty())
                };
                match list {
                    Parse::Failed { token, message, used } => Parse::Failed { token, message, used: used + 2 },
                    Parse::Done { value: params, used } => if !at(
                        tokens,
                        pos + 2 + used,
                        TokenKind::RightParen,
                    ) {
                        after(2 + used, failed_at(tokens, pos + 2 + used, "Expect ')' after parameters."@))
                    } else if !at(tokens, pos + 3 + used, TokenKind::LeftBrace) {
                        after(
                            3 + used,
                            failed_at(tokens, pos + 3 + used, "Expect '{' before "@ + kind + " body."@),
                        )
                    } else {
                        match block_rest(tokens, pos + 4 + used, Seq::empty()) {
                            Parse::Failed { token, message, used: more_used } => Parse::Failed {
                                token,
                                message,
                                used: more_used + 4 + used,
                            },
                            Parse::Done { value: body, used: more_used } => Parse::Done {
                                value: FunctionModel { name: token_at(tokens, pos), params, body },
                                used: more_used + 4 + used,
                            },
                        }
                    },
                }
            }
        }),
{
    reveal(function);
    reveal(block_rest);
}

/// The defining equation of `methods_rest`.
pub proof fn unfold_methods_rest(tokens: Seq<Lexeme>, pos: nat, taken: Seq<FunctionModel>)
    ensures
        methods_rest(tokens, pos, taken) == ({
            if more(tokens, pos) && token_at(tokens, pos).kind != TokenKind::RightBrace {
                match function(tokens, pos, "method"@) {
                    Parse::Done { value, used } => after(
                        stride(used),
                        methods_rest(tokens, pos + stride(used), taken.push(value)),
                    ),
                    Parse::Failed { token, message, used } => Parse::Failed { token, message, used },
                }
            } else if at(tokens, pos, TokenKind::RightBrace) {
                Parse::Done { value: taken, used: 1 }
            } else {
                failed_at(tokens, pos, "Expect '}' after class body."@)
            }
        }),
{
    reveal(function);
    reveal(methods_rest);
}

/// The defining equation of `class_declaration`.
pub proof fn unfold_class_declaration(tokens: Seq<Lexeme>, pos: nat)
    ensures
        class_declaration(tokens, pos) == ({
            if !at(tokens, pos, TokenKind::Identifier) {
                failed_at(tokens, pos, "Expect class name."@)
            } else if at(tokens, pos + 1, TokenKind::Less) && !at(tokens, pos + 2, TokenKind::Identifier) {
                after(2, failed_at(tokens, pos + 2, "Expect superclass name."@))
            } else {
                let superclass = if at(tokens, pos + 1, TokenKind::Less) {
                    Some(token_at(tokens, pos + 2))
                } else {
                    None
                };
                let body: nat = if at(tokens, pos + 1, TokenKind::Less) {
                    pos + 3
                } else {
                    pos + 1
                };
                if !at(tokens, body, TokenKind::LeftBrace) {
                    after((body - pos) as nat, failed_at(tokens, body, "Expect '{' before class body."@))
                } else {
                    after(
                        (body + 1 - pos) as nat,
                        wrapped(
                            methods_rest(tokens, body + 1, Seq::empty()),
                            |methods: Seq<FunctionModel>|
                                StmtModel::Class { name: token_at(tokens, pos), superclass, methods },
                        ),
                    )
                }
            }
        }),
{
    reveal(class_declaration);
    reveal(methods_rest);
}

/// The defining equation of `declaration`.
pub proof fn unfold_declaration(tokens: Seq<Lexeme>, pos: nat)
    ensures
        declaration(tokens, pos) == ({
            let attempt = if at(tokens, pos, TokenKind::Class) {
                after(1, class_declaration(tokens, pos + 1))
            } else if at(tokens, pos, TokenKind::Fun) {
                after(
                    1,
                    wrapped(
                        function(tokens, pos + 1, "function"@),
                        |declared: FunctionModel| StmtModel::Function(declared),
                    ),
                )
            } else if at(tokens, pos, TokenKind::Var) {
                after(1, var_declaration(tokens, pos + 1))
            } else {
                statement(tokens, pos)
            };
            match attempt {
                Parse::Done { value, used } => attempt,
                Parse::Failed { token, message, used } => Parse::Failed {
                    token,
                    message,
                    used: used + synchronized(tokens, pos + used),
                },
            }
        }),
{
    reveal(declaration);
    reveal(class_declaration);
    reveal(function);
    reveal(statement);
}

} // verus!
