use vstd::prelude::*;
use vstd::hash_map::{HashMapWithView, StringHashMap};
use crate::ast::{Expr, FunctionStmt, Stmt};
use crate::grammar::{
    expr_model,
    expr_models,
    function_model,
    function_models,
    stmt_model,
    stmt_models,
    ExprModel,
    FunctionModel,
    StmtModel,
};

use crate::token::{lexemes, Lexeme, Token};

verus! {

broadcast use vstd::std_specs::hash::axiom_usize_obeys_hash_table_key_model;

/// For each resolved expression, named by the position of its name or
/// keyword token in the source, the number of scopes between the use and
/// the scope that declares the name.
pub struct SideTable {
    pub distances: HashMapWithView<usize, usize>,
}

impl View for SideTable {
    type V = Map<usize, usize>;

    open spec fn view(&self) -> Map<usize, usize> {
        self.distances@
    }
}

impl SideTable {
    /// An empty table.
    pub fn new() -> (table: Self)
        ensures
            table@ == Map::<usize, usize>::empty(),
    {
        SideTable { distances: HashMapWithView::new() }
    }

    /// Records the distance of the expression whose token stands at `key`.
    pub fn record(&mut self, key: usize, distance: usize)
        ensures
            final(self)@ == old(self)@.insert(key, distance),
    {
        self.distances.insert(key, distance);
    }

    /// The distance recorded for the expression whose token stands at `key`.
    pub fn distance(&self, key: usize) -> (distance: Option<usize>)
        ensures
            distance == (if self@.contains_key(key) {
                Some(self@[key])
            } else {
                None
            }),
    {
        match self.distances.get(&key) {
            Some(d) => Some(*d),
            None => None,
        }
    }
}

/// The kind of function that the resolver is inside.
#[derive(Debug, Clone, Copy, PartialEq, Eq, Structural)]
pub enum FunctionType {
    TopLevel,
    Function,
    Initializer,
    Method,
}

/// The kind of class that the resolver is inside.
#[derive(Debug, Clone, Copy, PartialEq, Eq, Structural)]
pub enum ClassType {
    Outside,
    Class,
    Subclass,
}

/// The static errors.
#[derive(Debug, Clone, Copy, PartialEq, Eq, Structural)]
pub enum ResolverErrorKind {
    /// A name is declared twice in one scope.
    AlreadyDeclared,
    /// A variable is read in its own initializer.
    ReadInOwnInitializer,
    /// `return` outside of any function.
    ReturnOutsideFunction,
    /// `return` with a value in an initializer.
    ReturnValueFromInitializer,
    /// `this` outside of a class.
    ThisOutsideClass,
    /// `super` outside of a class.
    SuperOutsideClass,
    /// `super` in a class that has no superclass.
    SuperWithoutSuperclass,
    /// A class names itself as its superclass.
    InheritsFromItself,
}

/// A static error, with the line of the token it was found at.
#[derive(Debug, Clone, Copy, PartialEq, Eq, Structural)]
pub struct ResolverError {
    pub kind: ResolverErrorKind,
    pub line: usize,
}

impl ResolverErrorKind {
    /// What the program did wrong, as a sentence.
    pub fn message(&self) -> (text: &'static str)
        ensures
            text@ == (match *self {
                ResolverErrorKind::AlreadyDeclared => "Already variable with this name in this scope."@,
                ResolverErrorKind::ReadInOwnInitializer =>
                    "Can't read local variable in its own initializer."@,
                ResolverErrorKind::ReturnOutsideFunction => "Can't return from top-level code."@,
                ResolverErrorKind::ReturnValueFromInitializer =>
                    "Can't return a value from an initializer."@,
                ResolverErrorKind::ThisOutsideClass => "Can't use 'this' outside of a class."@,
                ResolverErrorKind::SuperOutsideClass => "Can't use 'super' outside of a class."@,
                ResolverErrorKind::SuperWithoutSuperclass => "Can't use 'super' with no superclass."@,
                ResolverErrorKind::InheritsFromItself => "A class can't inherit from itself."@,
            }),
    {
        match self {
            ResolverErrorKind::AlreadyDeclared => "Already variable with this name in this scope.",
            ResolverErrorKind::ReadInOwnInitializer => "Can't read local variable in its own initializer.",
            ResolverErrorKind::ReturnOutsideFunction => "Can't return from top-level code.",
            ResolverErrorKind::ReturnValueFromInitializer => "Can't return a value from an initializer.",
            ResolverErrorKind::ThisOutsideClass => "Can't use 'this' outside of a class.",
            ResolverErrorKind::SuperOutsideClass => "Can't use 'super' outside of a class.",
            ResolverErrorKind::SuperWithoutSuperclass => "Can't use 'super' with no superclass.",
            ResolverErrorKind::InheritsFromItself => "A class can't inherit from itself.",
        }
    }
}

/// The resolver's state as mathematics: the stack of open scopes, each a map
/// from a name to whether its initializer is done; the distances recorded so
/// far; and what kind of function and class the resolver is inside.
#[verifier::ext_equal]
pub ghost struct Resolution {
    pub scopes: Seq<Map<Seq<char>, bool>>,
    pub locals: Map<usize, usize>,
    pub function: FunctionType,
    pub class: ClassType,
}

/// The stack of open scopes as mathematics.
pub open spec fn scope_maps(scopes: Seq<StringHashMap<bool>>) -> Seq<Map<Seq<char>, bool>> {
    Seq::new(scopes.len(), |i: int| scopes[i]@)
}

/// The error of a kind at a token.
pub open spec fn failure(kind: ResolverErrorKind, token: Lexeme) -> ResolverError {
    ResolverError { kind, line: token.line }
}

/// The state with one more scope open, which binds nothing.
pub open spec fn begun(state: Resolution) -> Resolution {
    Resolution { scopes: state.scopes.push(Map::empty()), ..state }
}

/// The state with the innermost scope closed.
pub open spec fn ended(state: Resolution) -> Resolution {
    if state.scopes.len() == 0 {
        state
    } else {
        Resolution { scopes: state.scopes.drop_last(), ..state }
    }
}

/// The state with `name` bound to `ready` in the innermost scope; unchanged
/// where no scope is open (globals are not tracked).
pub open spec fn bound(state: Resolution, name: Seq<char>, ready: bool) -> Resolution {
    if state.scopes.len() == 0 {
        state
    } else {
        Resolution {
            scopes: state.scopes.update(
                state.scopes.len() - 1,
                state.scopes.last().insert(name, ready),
            ),
            ..state
        }
    }
}

/// Declaring a name: it enters the innermost scope as not yet ready, and it
/// is an error if that scope has the name already.
pub open spec fn declared(state: Resolution, name: Lexeme) -> Result<Resolution, ResolverError> {
    if state.scopes.len() > 0 && state.scopes.last().contains_key(name.text) {
        Err(failure(ResolverErrorKind::AlreadyDeclared, name))
    } else {
        Ok(bound(state, name.text, false))
    }
}

/// The state after the initializer of a name is done.
pub open spec fn defined(state: Resolution, name: Lexeme) -> Resolution {
    bound(state, name.text, true)
}

/// The innermost of the first `count` scopes that has `name`.
pub open spec fn innermost(scopes: Seq<Map<Seq<char>, bool>>, name: Seq<char>, count: nat) -> Option<
    nat,
>
    decreases count,
{
    if count == 0 || count > scopes.len() {
        None
    } else if scopes[count - 1].contains_key(name) {
        Some((count - 1) as nat)
    } else {
        innermost(scopes, name, (count - 1) as nat)
    }
}

/// Resolving a use of `name`: where an open scope has the name, the number
/// of scopes between the innermost scope and the innermost one that has it
/// is recorded under the token's position; else nothing is recorded and the
/// name is a global.
pub open spec fn resolved_local(state: Resolution, name: Lexeme) -> Resolution {
    match innermost(state.scopes, name.text, state.scopes.len()) {
        Some(index) => Resolution {
            locals: state.locals.insert(
                name.scanner_index,
                (state.scopes.len() - 1 - index) as usize,
            ),
            ..state
        },
        None => state,
    }
}

/// Resolving a read of a variable: an error where the innermost scope has
/// declared the name and its initializer is not done.
pub open spec fn resolved_variable(state: Resolution, name: Lexeme) -> Result<
    Resolution,
    ResolverError,
> {
    if state.scopes.len() > 0 && state.scopes.last().contains_key(name.text)
        && !state.scopes.last()[name.text] {
        Err(failure(ResolverErrorKind::ReadInOwnInitializer, name))
    } else {
        Ok(resolved_local(state, name))
    }
}

/// Resolving an expression: its parts in the order in which they are
/// written, except that the value of an assignment comes before its target.
pub open spec fn resolved_expr(state: Resolution, expression: ExprModel) -> Result<
    Resolution,
    ResolverError,
>
    decreases expression,
{
    match expression {
        ExprModel::Variable { name } => resolved_variable(state, name),
        ExprModel::Assign { name, value } => match resolved_expr(state, *value) {
            Ok(after) => Ok(resolved_local(after, name)),
            Err(e) => Err(e),
        },
        ExprModel::Call { callee, arguments, .. } => match resolved_expr(state, *callee) {
            Ok(after) => resolved_exprs(after, arguments, arguments.len()),
            Err(e) => Err(e),
        },
        ExprModel::Get { object, .. } => resolved_expr(state, *object),
        ExprModel::SetProperty { object, value, .. } => match resolved_expr(state, *value) {
            Ok(after) => resolved_expr(after, *object),
            Err(e) => Err(e),
        },
        ExprModel::Grouping { expression } => resolved_expr(state, *expression),
        ExprModel::Literal { .. } => Ok(state),
        ExprModel::Logical { left, right, .. } => match resolved_expr(state, *left) {
            Ok(after) => resolved_expr(after, *right),
            Err(e) => Err(e),
        },
        ExprModel::Binary { left, right, .. } => match resolved_expr(state, *left) {
            Ok(after) => resolved_expr(after, *right),
            Err(e) => Err(e),
        },
        ExprModel::Unary { right, .. } => resolved_expr(state, *right),
        ExprModel::This { keyword } => if state.class == ClassType::Outside {
            Err(failure(ResolverErrorKind::ThisOutsideClass, keyword))
        } else {
            Ok(resolved_local(state, keyword))
        },
        ExprModel::Super { keyword, .. } => if state.class == ClassType::Outside {
            Err(failure(ResolverErrorKind::SuperOutsideClass, keyword))
        } else if state.class != ClassType::Subclass {
            Err(failure(ResolverErrorKind::SuperWithoutSuperclass, keyword))
        } else {
            Ok(resolved_local(state, keyword))
        },
    }
}

/// Resolving the first `count` of `expressions`, in order.
pub open spec fn resolved_exprs(state: Resolution, expressions: Seq<ExprModel>, count: nat) -> Result<
    Resolution,
    ResolverError,
>
    decreases expressions, count,
{
    if count == 0 || count > expressions.len() {
        Ok(state)
    } else {
        match resolved_exprs(state, expressions, (count - 1) as nat) {
            Ok(after) => resolved_expr(after, expressions[count - 1]),
            Err(e) => Err(e),
        }
    }
}

/// Declaring and defining the first `count` of `params`, in order.
pub open spec fn declared_params(state: Resolution, params: Seq<Lexeme>, count: nat) -> Result<
    Resolution,
    ResolverError,
>
    decreases count,
{
    if count == 0 || count > params.len() {
        Ok(state)
    } else {
        match declared_params(state, params, (count - 1) as nat) {
            Ok(after) => match declared(after, params[count - 1]) {
                Ok(with_name) => Ok(defined(with_name, params[count - 1])),
                Err(e) => Err(e),
            },
            Err(e) => Err(e),
        }
    }
}

/// Resolving a function of the given kind: its parameters and body live in
/// one new scope, and inside it the resolver is in a function of that kind.
pub open spec fn resolved_function(state: Resolution, fun: FunctionModel, kind: FunctionType) -> Result<
    Resolution,
    ResolverError,
>
    decreases fun,
{
    let inside = begun(Resolution { function: kind, ..state });
    match declared_params(inside, fun.params, fun.params.len()) {
        Ok(with_params) => match resolved_stmts(with_params, fun.body, fun.body.len()) {
            Ok(after) => Ok(Resolution { function: state.function, ..ended(after) }),
            Err(e) => Err(e),
        },
        Err(e) => Err(e),
    }
}

/// The kind of a method: an initializer where it is called `init`.
pub open spec fn method_kind(method: FunctionModel) -> FunctionType {
    if method.name.text == "init"@ {
        FunctionType::Initializer
    } else {
        FunctionType::Method
    }
}

/// Resolving the first `count` of a class's methods, in order.
pub open spec fn resolved_methods(state: Resolution, methods: Seq<FunctionModel>, count: nat) -> Result<
    Resolution,
    ResolverError,
>
    decreases methods, count,
{
    if count == 0 || count > methods.len() {
        Ok(state)
    } else {
        match resolved_methods(state, methods, (count - 1) as nat) {
            Ok(after) => resolved_function(
                after,
                methods[count - 1],
                method_kind(methods[count - 1]),
            ),
            Err(e) => Err(e),
        }
    }
}

/// Resolving the first `count` of `statements`, in order.
pub open spec fn resolved_stmts(state: Resolution, statements: Seq<StmtModel>, count: nat) -> Result<
    Resolution,
    ResolverError,
>
    decreases statements, count,
{
    if count == 0 || count > statements.len() {
        Ok(state)
    } else {
        match resolved_stmts(state, statements, (count - 1) as nat) {
            Ok(after) => resolved_stmt(after, statements[count - 1]),
            Err(e) => Err(e),
        }
    }
}

/// Resolving the body of a class: an optional scope for `super`, a scope for
/// `this`, and the methods inside them.
pub open spec fn resolved_class_body(
    state: Resolution,
    superclass: Option<Lexeme>,
    methods: Seq<FunctionModel>,
) -> Result<Resolution, ResolverError>
    decreases methods, methods.len() + 1,
{
    let with_super = if superclass.is_some() {
        bound(begun(state), "super"@, true)
    } else {
        state
    };
    let with_this = bound(begun(with_super), "this"@, true);
    match resolved_methods(with_this, methods, methods.len()) {
        Ok(after) => Ok(
            if superclass.is_some() {
                ended(ended(after))
            } else {
                ended(after)
            },
        ),
        Err(e) => Err(e),
    }
}

/// Resolving a statement.
pub open spec fn resolved_stmt(state: Resolution, statement: StmtModel) -> Result<
    Resolution,
    ResolverError,
>
    decreases statement,
{
    match statement {
        StmtModel::Block { statements } => match resolved_stmts(
            begun(state),
            statements,
            statements.len(),
        ) {
            Ok(after) => Ok(ended(after)),
            Err(e) => Err(e),
        },
        StmtModel::Var { name, initializer } => match declared(state, name) {
            Ok(with_name) => match initializer {
                Some(value) => match resolved_expr(with_name, value) {
                    Ok(after) => Ok(defined(after, name)),
                    Err(e) => Err(e),
                },
                None => Ok(defined(with_name, name)),
            },
            Err(e) => Err(e),
        },
        StmtModel::Function(fun) => match declared(state, fun.name) {
            Ok(with_name) => resolved_function(
                defined(with_name, fun.name),
                fun,
                FunctionType::Function,
            ),
            Err(e) => Err(e),
        },
        StmtModel::Expression { expression } => resolved_expr(state, expression),
        StmtModel::If { condition, then_branch, else_branch } => match resolved_expr(state, condition) {
            Ok(after_condition) => match resolved_stmt(after_condition, *then_branch) {
                Ok(after_then) => match else_branch {
                    Some(branch) => resolved_stmt(after_then, *branch),
                    None => Ok(after_then),
                },
                Err(e) => Err(e),
            },
            Err(e) => Err(e),
        },
        StmtModel::Print { expression } => resolved_expr(state, expression),
        StmtModel::Return { keyword, value } => if state.function == FunctionType::TopLevel {
            Err(failure(ResolverErrorKind::ReturnOutsideFunction, keyword))
        } else {
            match value {
                Some(result) => if state.function == FunctionType::Initializer {
                    Err(failure(ResolverErrorKind::ReturnValueFromInitializer, keyword))
                } else {
                    resolved_expr(state, result)
                },
                None => Ok(state),
            }
        },
        StmtModel::While { condition, body } => match resolved_expr(state, condition) {
            Ok(after) => resolved_stmt(after, *body),
            Err(e) => Err(e),
        },
        StmtModel::Class { name, superclass, methods } => match declared(state, name) {
            Ok(with_name) => {
                let named = defined(with_name, name);
                let entered = Resolution {
                    class: if superclass.is_some() {
                        ClassType::Subclass
                    } else {
                        ClassType::Class
                    },
                    ..named
                };
                let with_superclass = match superclass {
                    Some(parent) => if name.text == parent.text {
                        Err(failure(ResolverErrorKind::InheritsFromItself, parent))
                    } else {
                        resolved_variable(entered, parent)
                    },
                    None => Ok(entered),
                };
                match with_superclass {
                    Ok(ready) => match resolved_class_body(ready, superclass, methods) {
                        Ok(after) => Ok(Resolution { class: state.class, ..after }),
                        Err(e) => Err(e),
                    },
                    Err(e) => Err(e),
                }
            },
            Err(e) => Err(e),
        },
    }
}

/// Whether what a step of the resolver returned and left behind is what
/// was `expected` of it: on success the state it names, on failure its
/// error.
pub open spec fn agrees(
    result: Result<(), ResolverError>,
    after: Resolution,
    expected: Result<Resolution, ResolverError>,
) -> bool {
    match expected {
        Ok(state) => result.is_ok() && after == state,
        Err(e) => result == Err::<(), ResolverError>(e),
    }
}

/// The static pass: it walks the program once, keeps the stack of open
/// scopes, and records for each use of a local name how many scopes lie
/// between the use and the declaration.
pub struct Resolver {
    pub scopes: Vec<StringHashMap<bool>>,
    pub locals: SideTable,
    pub current_function: FunctionType,
    pub current_class: ClassType,
}

impl View for Resolver {
    type V = Resolution;

    open spec fn view(&self) -> Resolution {
        Resolution {
            scopes: scope_maps(self.scopes@),
            locals: self.locals@,
            function: self.current_function,
            class: self.current_class,
        }
    }
}

/// A token that may be missing, as mathematics.
pub open spec fn optional_lexeme(token: &Option<Token>) -> Option<Lexeme> {
    match token {
        Some(inner) => Some(inner@),
        None => None,
    }
}

/// The state a resolver starts in: no scope open, nothing recorded, outside
/// of any function and class.
pub open spec fn initial() -> Resolution {
    Resolution {
        scopes: Seq::empty(),
        locals: Map::empty(),
        function: FunctionType::TopLevel,
        class: ClassType::Outside,
    }
}

fn error_at(kind: ResolverErrorKind, token: &Token) -> (error: ResolverError)
    ensures
        error == failure(kind, token@),
{
    ResolverError { kind, line: token.line }
}

impl Resolver {
    /// A resolver in its initial state.
    pub fn new() -> (resolver: Self)
        ensures
            resolver@ == initial(),
    {
        let resolver = Resolver {
            scopes: Vec::new(),
            locals: SideTable::new(),
            current_function: FunctionType::TopLevel,
            current_class: ClassType::Outside,
        };
        assert(resolver@ =~~= initial());
        resolver
    }

    /// Resolves a whole program. On success the result holds every recorded
    /// distance; on the first static error it holds that error.
    pub fn resolve(self, statements: &Vec<Stmt>) -> (result: Result<SideTable, ResolverError>)
        ensures
            match resolved_stmts(self@, stmt_models(statements), statements@.len() as nat) {
                Ok(state) => result matches Ok(table) && table@ == state.locals,
                Err(e) => result matches Err(error) && error == e,
            },
    {
        let mut resolver = self;
        match resolver.resolve_statements(statements) {
            Ok(()) => Ok(resolver.locals),
            Err(e) => Err(e),
        }
    }

    fn resolve_statements(&mut self, statements: &Vec<Stmt>) -> (result: Result<(), ResolverError>)
        ensures
            agrees(
                result,
                final(self)@,
                resolved_stmts(old(self)@, stmt_models(statements), statements@.len() as nat),
            ),
        decreases statements, statements@.len() + 1,
    {
        let mut i: usize = 0;
        while i < statements.len()
            invariant
                i <= statements@.len(),
                resolved_stmts(old(self)@, stmt_models(statements), i as nat) == Ok::<Resolution, ResolverError>(
                    self@,
                ),
            decreases statements@.len() - i,
        {
            match self.resolve_stmt(&statements[i]) {
                Ok(()) => {},
                Err(e) => {
                    proof {
                        lemma_stmts_error_stays(
                            old(self)@,
                            stmt_models(statements),
                            (i + 1) as nat,
                            statements@.len() as nat,
                        );
                    }
                    return Err(e);
                },
            }
            i = i + 1;
        }
        Ok(())
    }

    fn resolve_stmt(&mut self, statement: &Stmt) -> (result: Result<(), ResolverError>)
        ensures
            agrees(result, final(self)@, resolved_stmt(old(self)@, stmt_model(statement))),
        decreases statement,
    {
        match statement {
            Stmt::Block { statements } => {
                self.begin_scope();
                self.resolve_statements(statements)?;
                self.end_scope();
            },
            Stmt::Var { name, initializer } => {
                self.declare(name)?;
                match initializer {
                    Some(value) => {
                        self.resolve_expr(value)?;
                    },
                    None => {},
                }
                self.define(name);
            },
            Stmt::Function(fun) => {
                assert(function_model(fun).name == fun.name@);
                self.declare(&fun.name)?;
                self.define(&fun.name);
                self.resolve_function(fun, FunctionType::Function)?;
            },
            Stmt::Expression { expression } => {
                self.resolve_expr(expression)?;
            },
            Stmt::If { condition, then_branch, else_branch } => {
                self.resolve_expr(condition)?;
                self.resolve_stmt(then_branch)?;
                match else_branch {
                    Some(branch) => {
                        self.resolve_stmt(branch)?;
                    },
                    None => {},
                }
            },
            Stmt::Print { expression } => {
                self.resolve_expr(expression)?;
            },
            Stmt::Return { keyword, value } => {
                if self.current_function == FunctionType::TopLevel {
                    return Err(error_at(ResolverErrorKind::ReturnOutsideFunction, keyword));
                }
                match value {
                    Some(result) => {
                        if self.current_function == FunctionType::Initializer {
                            return Err(
                                error_at(ResolverErrorKind::ReturnValueFromInitializer, keyword),
                            );
                        }
                        self.resolve_expr(result)?;
                    },
                    None => {},
                }
            },
            Stmt::While { condition, body } => {
                self.resolve_expr(condition)?;
                self.resolve_stmt(body)?;
            },
            Stmt::Class { name, superclass, methods } => {
                let enclosing_class = self.current_class;
                self.declare(name)?;
                self.define(name);
                match superclass {
                    Some(parent) => {
                        self.current_class = ClassType::Subclass;
                        if name.lexeme == parent.lexeme {
                            return Err(error_at(ResolverErrorKind::InheritsFromItself, parent));
                        }
                        self.resolve_variable(parent)?;
                    },
                    None => {
                        self.current_class = ClassType::Class;
                    },
                }
                self.resolve_class_body(superclass, methods)?;
                self.current_class = enclosing_class;
            },
        }
        Ok(())
    }

    fn resolve_class_body(&mut self, superclass: &Option<Token>, methods: &Vec<FunctionStmt>) -> (result:
        Result<(), ResolverError>)
        ensures
            agrees(
                result,
                final(self)@,
                resolved_class_body(old(self)@, optional_lexeme(superclass), function_models(methods)),
            ),
        decreases methods, methods@.len() + 1,
    {
        if superclass.is_some() {
            self.begin_scope();
            self.bind("super", true);
        }
        self.begin_scope();
        self.bind("this", true);
        let ghost start = self@;
        let initializer_name = "init".to_owned();
        let mut i: usize = 0;
        while i < methods.len()
            invariant
                i <= methods@.len(),
                initializer_name@ == "init"@,
                resolved_class_body(
                    old(self)@,
                    optional_lexeme(superclass),
                    function_models(methods),
                ) == (match resolved_methods(start, function_models(methods), methods@.len() as nat) {
                    Ok(after) => Ok::<Resolution, ResolverError>(
                        if superclass.is_some() {
                            ended(ended(after))
                        } else {
                            ended(after)
                        },
                    ),
                    Err(e) => Err(e),
                }),
                resolved_methods(start, function_models(methods), i as nat) == Ok::<Resolution, ResolverError>(self@),
            decreases methods@.len() - i,
        {
            let method = &methods[i];
            let kind = if method.name.lexeme == initializer_name {
                FunctionType::Initializer
            } else {
                FunctionType::Method
            };
            match self.resolve_function(method, kind) {
                Ok(()) => {},
                Err(e) => {
                    proof {
                        lemma_methods_error_stays(
                            start,
                            function_models(methods),
                            (i + 1) as nat,
                            methods@.len() as nat,
                        );
                    }
                    return Err(e);
                },
            }
            i = i + 1;
        }
        self.end_scope();
        if superclass.is_some() {
            self.end_scope();
        }
        Ok(())
    }

    fn resolve_expr(&mut self, expression: &Expr) -> (result: Result<(), ResolverError>)
        ensures
            agrees(result, final(self)@, resolved_expr(old(self)@, expr_model(expression))),
        decreases expression,
    {
        match expression {
            Expr::Variable { name } => {
                self.resolve_variable(name)?;
            },
            Expr::Assign { name, value } => {
                self.resolve_expr(value)?;
                self.resolve_local(name);
            },
            Expr::Call { callee, arguments, .. } => {
                self.resolve_expr(callee)?;
                self.resolve_expressions(arguments)?;
            },
            Expr::Get { object, .. } => {
                self.resolve_expr(object)?;
            },
            Expr::SetProperty { object, value, .. } => {
                self.resolve_expr(value)?;
                self.resolve_expr(object)?;
            },
            Expr::Grouping { expression } => {
                self.resolve_expr(expression)?;
            },
            Expr::Literal { .. } => {},
            Expr::Logical { left, right, .. } => {
                self.resolve_expr(left)?;
                self.resolve_expr(right)?;
            },
            Expr::Binary { left, right, .. } => {
                self.resolve_expr(left)?;
                self.resolve_expr(right)?;
            },
            Expr::Unary { right, .. } => {
                self.resolve_expr(right)?;
            },
            Expr::This { keyword } => {
                if self.current_class == ClassType::Outside {
                    return Err(error_at(ResolverErrorKind::ThisOutsideClass, keyword));
                }
                self.resolve_local(keyword);
            },
            Expr::Super { keyword, .. } => {
                if self.current_class == ClassType::Outside {
                    return Err(error_at(ResolverErrorKind::SuperOutsideClass, keyword));
                } else if self.current_class != ClassType::Subclass {
                    return Err(error_at(ResolverErrorKind::SuperWithoutSuperclass, keyword));
                }
                self.resolve_local(keyword);
            },
        }
        Ok(())
    }

    fn resolve_expressions(&mut self, expressions: &Vec<Expr>) -> (result: Result<(), ResolverError>)
        ensures
            agrees(
                result,
                final(self)@,
                resolved_exprs(old(self)@, expr_models(expressions), expressions@.len() as nat),
            ),
        decreases expressions, expressions@.len() + 1,
    {
        let mut i: usize = 0;
        while i < expressions.len()
            invariant
                i <= expressions@.len(),
                resolved_exprs(old(self)@, expr_models(expressions), i as nat) == Ok::<Resolution, ResolverError>(
                    self@,
                ),
            decreases expressions@.len() - i,
        {
            match self.resolve_expr(&expressions[i]) {
                Ok(()) => {},
                Err(e) => {
                    proof {
                        lemma_exprs_error_stays(
                            old(self)@,
                            expr_models(expressions),
                            (i + 1) as nat,
                            expressions@.len() as nat,
                        );
                    }
                    return Err(e);
                },
            }
            i = i + 1;
        }
        Ok(())
    }

    fn resolve_variable(&mut self, name: &Token) -> (result: Result<(), ResolverError>)
        ensures
            agrees(result, final(self)@, resolved_variable(old(self)@, name@)),
    {
        let depth = self.scopes.len();
        if depth > 0 {
            match self.scopes[depth - 1].get(name.lexeme.as_str()) {
                Some(ready) => {
                    if !*ready {
                        return Err(error_at(ResolverErrorKind::ReadInOwnInitializer, name));
                    }
                },
                None => {},
            }
        }
        self.resolve_local(name);
        Ok(())
    }

    fn resolve_local(&mut self, name: &Token)
        ensures
            final(self)@ == resolved_local(old(self)@, name@),
    {
        let depth = self.scopes.len();
        let mut i = depth;
        while i > 0
            invariant
                i <= depth,
                depth == self.scopes@.len(),
                self@ == old(self)@,
                innermost(self@.scopes, name.lexeme@, depth as nat) == innermost(
                    self@.scopes,
                    name.lexeme@,
                    i as nat,
                ),
            decreases i,
        {
            if self.scopes[i - 1].contains_key(name.lexeme.as_str()) {
                self.locals.record(name.scanner_index, depth - i);
                assert(self@ =~~= resolved_local(old(self)@, name@));
                return ;
            }
            i = i - 1;
        }
    }

    fn resolve_function(&mut self, fun: &FunctionStmt, kind: FunctionType) -> (result: Result<
        (),
        ResolverError,
    >)
        ensures
            agrees(result, final(self)@, resolved_function(old(self)@, function_model(fun), kind)),
        decreases fun,
    {
        let enclosing_function = self.current_function;
        self.current_function = kind;
        self.begin_scope();
        let ghost start = self@;
        let mut i: usize = 0;
        while i < fun.params.len()
            invariant
                i <= fun.params@.len(),
                start == begun(Resolution { function: kind, ..old(self)@ }),
                enclosing_function == old(self)@.function,
                declared_params(start, lexemes(fun.params@), i as nat) == Ok::<Resolution, ResolverError>(
                    self@,
                ),
            decreases fun.params@.len() - i,
        {
            match self.declare(&fun.params[i]) {
                Ok(()) => {},
                Err(e) => {
                    proof {
                        lemma_params_error_stays(
                            start,
                            lexemes(fun.params@),
                            (i + 1) as nat,
                            fun.params@.len() as nat,
                        );
                    }
                    return Err(e);
                },
            }
            self.define(&fun.params[i]);
            i = i + 1;
        }
        self.resolve_statements(&fun.body)?;
        self.end_scope();
        self.current_function = enclosing_function;
        assert(self@ =~~= resolved_function(old(self)@, function_model(fun), kind).unwrap());
        Ok(())
    }

    fn begin_scope(&mut self)
        ensures
            final(self)@ == begun(old(self)@),
    {
        self.scopes.push(StringHashMap::new());
        assert(self@ =~~= begun(old(self)@));
    }

    fn end_scope(&mut self)
        ensures
            final(self)@ == ended(old(self)@),
    {
        self.scopes.pop();
        assert(self@ =~~= ended(old(self)@));
    }

    fn bind(&mut self, name: &str, ready: bool)
        ensures
            final(self)@ == bound(old(self)@, name@, ready),
    {
        let depth = self.scopes.len();
        if depth > 0 {
            self.scopes[depth - 1].insert(name.to_owned(), ready);
        }
        assert(self@ =~~= bound(old(self)@, name@, ready));
    }

    fn declare(&mut self, name: &Token) -> (result: Result<(), ResolverError>)
        ensures
            agrees(result, final(self)@, declared(old(self)@, name@)),
    {
        let depth = self.scopes.len();
        if depth > 0 && self.scopes[depth - 1].contains_key(name.lexeme.as_str()) {
            return Err(error_at(ResolverErrorKind::AlreadyDeclared, name));
        }
        self.bind(name.lexeme.as_str(), false);
        Ok(())
    }

    fn define(&mut self, name: &Token)
        ensures
            final(self)@ == defined(old(self)@, name@),
    {
        self.bind(name.lexeme.as_str(), true);
    }
}

/// Once a statement of a list fails, the list fails with that error.
pub proof fn lemma_stmts_error_stays(state: Resolution, statements: Seq<StmtModel>, failed: nat, count: nat)
    requires
        failed <= count <= statements.len(),
        resolved_stmts(state, statements, failed).is_err(),
    ensures
        resolved_stmts(state, statements, count) == resolved_stmts(state, statements, failed),
    decreases count,
{
    if count > failed {
        lemma_stmts_error_stays(state, statements, failed, (count - 1) as nat);
    }
}

/// Once an expression of a list fails, the list fails with that error.
pub proof fn lemma_exprs_error_stays(state: Resolution, expressions: Seq<ExprModel>, failed: nat, count: nat)
    requires
        failed <= count <= expressions.len(),
        resolved_exprs(state, expressions, failed).is_err(),
    ensures
        resolved_exprs(state, expressions, count) == resolved_exprs(state, expressions, failed),
    decreases count,
{
    if count > failed {
        lemma_exprs_error_stays(state, expressions, failed, (count - 1) as nat);
    }
}

/// Once a method of a class fails, the class fails with that error.
pub proof fn lemma_methods_error_stays(
    state: Resolution,
    methods: Seq<FunctionModel>,
    failed: nat,
    count: nat,
)
    requires
        failed <= count <= methods.len(),
        resolved_methods(state, methods, failed).is_err(),
    ensures
        resolved_methods(state, methods, count) == resolved_methods(state, methods, failed),
    decreases count,
{
    if count > failed {
        lemma_methods_error_stays(state, methods, failed, (count - 1) as nat);
    }
}

/// Once a parameter fails, the parameters fail with that error.
pub proof fn lemma_params_error_stays(state: Resolution, params: Seq<Lexeme>, failed: nat, count: nat)
    requires
        failed <= count <= params.len(),
        declared_params(state, params, failed).is_err(),
    ensures
        declared_params(state, params, count) == declared_params(state, params, failed),
    decreases count,
{
    if count > failed {
        lemma_params_error_stays(state, params, failed, (count - 1) as nat);
    }
}

/// A name cannot be declared twice in one scope, and can be declared again
/// in a scope inside it.
pub proof fn law_duplicate_declaration(state: Resolution, name: Lexeme)
    requires
        state.scopes.len() > 0,
    ensures
        state.scopes.last().contains_key(name.text) ==> declared(state, name) == Err::<
            Resolution,
            ResolverError,
        >(failure(ResolverErrorKind::AlreadyDeclared, name)),
        declared(begun(state), name) is Ok,
{
}

/// Whether resolving `expression` begins with a read of the variable `name`.
pub open spec fn reads_first(expression: ExprModel, name: Seq<char>) -> Option<Lexeme>
    decreases expression,
{
    match expression {
        ExprModel::Variable { name: used } => if used.text == name {
            Some(used)
        } else {
            None
        },
        ExprModel::Binary { left, .. } => reads_first(*left, name),
        ExprModel::Logical { left, .. } => reads_first(*left, name),
        ExprModel::Grouping { expression } => reads_first(*expression, name),
        ExprModel::Unary { right, .. } => reads_first(*right, name),
        ExprModel::Call { callee, .. } => reads_first(*callee, name),
        ExprModel::Get { object, .. } => reads_first(*object, name),
        _ => None,
    }
}

/// While the innermost scope has declared a name and its initializer is not
/// done, an expression that begins with a read of that name does not resolve.
pub proof fn law_read_before_defined(state: Resolution, expression: ExprModel, name: Seq<char>)
    requires
        state.scopes.len() > 0,
        state.scopes.last().contains_key(name),
        !state.scopes.last()[name],
        reads_first(expression, name).is_some(),
    ensures
        resolved_expr(state, expression) == Err::<Resolution, ResolverError>(
            failure(ResolverErrorKind::ReadInOwnInitializer, reads_first(expression, name).unwrap()),
        ),
    decreases expression,
{
    match expression {
        ExprModel::Binary { left, .. } => law_read_before_defined(state, *left, name),
        ExprModel::Logical { left, .. } => law_read_before_defined(state, *left, name),
        ExprModel::Grouping { expression } => law_read_before_defined(state, *expression, name),
        ExprModel::Unary { right, .. } => law_read_before_defined(state, *right, name),
        ExprModel::Call { callee, .. } => law_read_before_defined(state, *callee, name),
        ExprModel::Get { object, .. } => law_read_before_defined(state, *object, name),
        _ => {},
    }
}

/// A local variable whose initializer begins with a read of its own name
/// does not resolve, whatever the scopes around the innermost one hold.
pub proof fn law_self_reference_fails(state: Resolution, name: Lexeme, initializer: ExprModel)
    requires
        state.scopes.len() > 0,
        !state.scopes.last().contains_key(name.text),
        reads_first(initializer, name.text).is_some(),
    ensures
        resolved_stmt(state, StmtModel::Var { name, initializer: Some(initializer) }) == Err::<
            Resolution,
            ResolverError,
        >(
            failure(
                ResolverErrorKind::ReadInOwnInitializer,
                reads_first(initializer, name.text).unwrap(),
            ),
        ),
{
    let with_name = bound(state, name.text, false);
    law_read_before_defined(with_name, initializer, name.text);
}

} // verus!
