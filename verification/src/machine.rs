use vstd::prelude::*;
use crate::ast::{Expr, FunctionStmt, Stmt};
use crate::environment::{
    lemma_ancestor_in_range,
    lemma_owner_in_range,
    scopes_assign,
    scopes_assign_at,
    scopes_define,
    scopes_get,
    scopes_get_at,
    scopes_wf,
    Scope,
};
use crate::text::{decimal, decimal_text, framed};
use crate::token::{Literal, Token, TokenKind};
use crate::value::{
    bound_scope,
    classes_find_method,
    closures_within,
    instance_get,
    instance_set,
    values_equal,
    Callable,
    ClassModel,
    InstanceModel,
    RuntimeValue,
    UserFunction,
};

verus! {

/// Why a program stopped.
#[derive(Debug, Clone, Copy)]
pub enum InterpreterError<'a> {
    /// The machine was in a state that no program can bring it into.
    Internal,
    UnaryMinusOperandMustBeNumber(RuntimeValue<'a>),
    OperandsMustBeNumbers,
    OperandsMustBeNumbersOrStr,
    UndefinedVariable(&'a Token),
    UndefinedProperty(&'a Token),
    NotCallable(RuntimeValue<'a>),
    /// A call at this parenthesis expected the first count of arguments and got the second.
    FunctionArity(&'a Token, usize, usize),
    MustAccessValueOnInstances,
    SuperclassMustBeClass(&'a Token),
}

/// What the host has to do before the next step.
#[derive(Debug, Clone, Copy)]
pub enum Action<'a> {
    /// Nothing: step again.
    Continue,
    /// Write the value out.
    Print(RuntimeValue<'a>),
    /// Turn the digits of this number token into a number and answer with it.
    Number(&'a Token),
    /// Negate the number and answer with the result.
    Negate(u64),
    /// Add, subtract, multiply or divide, as the operator says, and answer
    /// with the resulting number.
    Arithmetic { operator: TokenKind, left: u64, right: u64 },
    /// Compare the two numbers as the operator says and answer with the truth value.
    Compare { operator: TokenKind, left: u64, right: u64 },
    /// Call the host function; its arguments are the topmost operands, the
    /// last one on top. Answer with the number or truth value it returns.
    CallBuiltIn { function: usize, arguments: usize },
    /// The program has run to its end.
    Finished,
    /// The program has stopped with an error.
    Failed(InterpreterError<'a>),
}

/// What the host answers.
#[derive(Debug, Clone, Copy)]
pub enum Event {
    /// No answer is due.
    Resume,
    Number(u64),
    Bool(bool),
}

/// One piece of pending work.
#[derive(Debug, Clone, Copy)]
pub enum Task<'a> {
    /// Run a statement.
    Execute(&'a Stmt),
    /// Run the statements of a list from the given position on.
    Sequence(&'a Vec<Stmt>, usize),
    /// Compute an expression and push its value.
    Evaluate(&'a Expr),
    /// Take the host's answer, drop that many operands and push the answer.
    Receive(usize),
    /// Drop the top operand.
    Discard,
    /// Replace the top operand by this value.
    Replace(RuntimeValue<'a>),
    /// Hand the top operand to the host for printing.
    Print,
    /// Return the top operand from the function that is running.
    Return,
    /// Declare the variable with the top operand as its value.
    Define(&'a Token),
    /// Assign the top operand to the variable and leave it as the result.
    Assign(&'a Token),
    /// Choose a branch of this `if` statement by the top operand.
    Branch(&'a Stmt),
    /// Run the body of this `while` statement once more if the top operand is truthy.
    Loop(&'a Stmt),
    /// Leave a block: go back to this scope.
    Restore(usize),
    /// The end of a function's body: go back to the caller's scope, cut the
    /// operands back to the caller's, and push `nil` as the result.
    Boundary { scope: usize, height: usize },
    /// Apply a unary operator to the top operand.
    Unary(&'a Token),
    /// Apply a binary operator to the two top operands.
    Binary(&'a Token),
    /// Finish this `and` or `or`, whose left operand is on top.
    Logical(&'a Expr),
    /// Go on with the arguments of this call from the given position, then call.
    Arguments(&'a Expr, usize),
    /// Read this property of the top operand.
    GetProperty(&'a Token),
    /// The object of this property assignment is on top: go on with the value.
    SetValue(&'a Expr),
    /// Store the top operand as this property of the operand below it.
    SetField(&'a Token),
}

/// The whole state of a run as mathematics.
#[verifier::ext_equal]
pub ghost struct Machine<'a> {
    /// All scopes; scope 0 holds the globals.
    pub scopes: Seq<Scope<'a>>,
    /// The scope that statements run in.
    pub current: usize,
    /// The resolver's distances.
    pub locals: Map<usize, usize>,
    /// The texts of the string values.
    pub strings: Seq<Seq<char>>,
    /// The number of parameters of each host function.
    pub natives: Seq<usize>,
    pub classes: Seq<ClassModel<'a>>,
    pub instances: Seq<InstanceModel<'a>>,
    /// Pending work; the last task is the next one.
    pub control: Seq<Task<'a>>,
    /// Values of expressions that are being computed; the last is on top.
    pub operands: Seq<RuntimeValue<'a>>,
}

/// The machine after a step, and what the host has to do before the next.
pub type Outcome<'a> = (Machine<'a>, Action<'a>);

impl<'a> Machine<'a> {
    /// The scope chain ends, the current scope exists, and every method of
    /// every class was defined in a scope that exists.
    pub open spec fn wf(self) -> bool {
        &&& scopes_wf(self.scopes)
        &&& self.current < self.scopes.len()
        &&& closures_within(self.classes, self.scopes.len())
    }

    /// The machine with one more pending task, which is the next one.
    pub open spec fn with_task(self, task: Task<'a>) -> Machine<'a> {
        Machine { control: self.control.push(task), ..self }
    }

    /// The machine with one more operand on top.
    pub open spec fn with_value(self, value: RuntimeValue<'a>) -> Machine<'a> {
        Machine { operands: self.operands.push(value), ..self }
    }

    /// The machine with only the lowest `height` operands.
    pub open spec fn cut(self, height: int) -> Machine<'a> {
        Machine { operands: self.operands.subrange(0, height), ..self }
    }

    /// The machine goes on without the host.
    pub open spec fn proceed(self) -> Outcome<'a> {
        (self, Action::Continue)
    }

    /// The program stops: pending work and operands are dropped and the
    /// machine is back in the global scope.
    pub open spec fn fail(self, error: InterpreterError<'a>) -> Outcome<'a> {
        (
            Machine { control: Seq::empty(), operands: Seq::empty(), current: 0, ..self },
            Action::Failed(error),
        )
    }

    /// Reading a variable: by distance where the resolver recorded one for
    /// this token, else by name among the globals.
    pub open spec fn variable(self, name: &'a Token) -> Option<RuntimeValue<'a>> {
        if self.locals.contains_key(name.scanner_index) {
            scopes_get_at(
                self.scopes,
                self.current,
                self.locals[name.scanner_index] as nat,
                name.lexeme@,
            )
        } else {
            scopes_get(self.scopes, 0, name.lexeme@)
        }
    }

    /// Reading a variable and pushing its value; a name that is bound nowhere
    /// stops the program.
    pub open spec fn look_up_variable(self, name: &'a Token) -> Outcome<'a> {
        match self.variable(name) {
            Some(value) => self.with_value(value).proceed(),
            None => self.fail(InterpreterError::UndefinedVariable(name)),
        }
    }

    /// `super.method`: the method is looked up from the class that `super`
    /// stands for and bound to the instance that `this` stands for, one
    /// scope further in.
    pub open spec fn super_method(self, keyword: &'a Token, method: &'a Token) -> Outcome<'a> {
        if !self.locals.contains_key(keyword.scanner_index) || self.locals[keyword.scanner_index]
            == 0 {
            self.fail(InterpreterError::Internal)
        } else {
            let distance = self.locals[keyword.scanner_index];
            let superclass = scopes_get_at(self.scopes, self.current, distance as nat, "super"@);
            let object = scopes_get_at(self.scopes, self.current, (distance - 1) as nat, "this"@);
            match (superclass, object) {
                (Some(RuntimeValue::Class(class)), Some(RuntimeValue::Instance(this))) => {
                    match classes_find_method(self.classes, class, method.lexeme@) {
                        Some(found) => Machine {
                            scopes: self.scopes.push(bound_scope(found, this)),
                            ..self
                        }.with_value(
                            RuntimeValue::UserFunction(
                                UserFunction {
                                    declaration: found.declaration,
                                    closure: self.scopes.len() as usize,
                                },
                            ),
                        ).proceed(),
                        None => self.fail(InterpreterError::UndefinedProperty(method)),
                    }
                },
                _ => self.fail(InterpreterError::Internal),
            }
        }
    }

    /// Starting on an expression.
    pub open spec fn evaluate(self, expression: &'a Expr) -> Outcome<'a> {
        match expression {
            Expr::Literal { value } => match value.literal {
                Literal::Nil => self.with_value(RuntimeValue::Nil).proceed(),
                Literal::Bool(b) => self.with_value(RuntimeValue::Bool(b)).proceed(),
                Literal::Str(text) => Machine { strings: self.strings.push(text@), ..self }.with_value(
                    RuntimeValue::Str(self.strings.len() as usize),
                ).proceed(),
                Literal::Number => (self.with_task(Task::Receive(0)), Action::Number(value)),
            },
            Expr::Variable { name } => self.look_up_variable(name),
            Expr::This { keyword } => self.look_up_variable(keyword),
            Expr::Super { keyword, method } => self.super_method(keyword, method),
            Expr::Assign { name, value } => self.with_task(Task::Assign(name)).with_task(
                Task::Evaluate(value),
            ).proceed(),
            Expr::Binary { left, operator, right } => self.with_task(Task::Binary(operator)).with_task(
                Task::Evaluate(right),
            ).with_task(Task::Evaluate(left)).proceed(),
            Expr::Logical { left, .. } => self.with_task(Task::Logical(expression)).with_task(
                Task::Evaluate(left),
            ).proceed(),
            Expr::Unary { operator, right } => self.with_task(Task::Unary(operator)).with_task(
                Task::Evaluate(right),
            ).proceed(),
            Expr::Grouping { expression: inner } => self.with_task(Task::Evaluate(inner)).proceed(),
            Expr::Call { callee, .. } => self.with_task(Task::Arguments(expression, 0)).with_task(
                Task::Evaluate(callee),
            ).proceed(),
            Expr::Get { object, name } => self.with_task(Task::GetProperty(name)).with_task(
                Task::Evaluate(object),
            ).proceed(),
            Expr::SetProperty { object, .. } => self.with_task(Task::SetValue(expression)).with_task(
                Task::Evaluate(object),
            ).proceed(),
        }
    }

    /// Entering a block: its statements run in `scope`, and the machine
    /// comes back to the scope it is in now.
    pub open spec fn execute_block(self, statements: &'a Vec<Stmt>, scope: usize) -> Machine<'a> {
        Machine { current: scope, ..self }.with_task(Task::Restore(self.current)).with_task(
            Task::Sequence(statements, 0),
        )
    }

    /// The machine after a name is bound in the current scope.
    pub open spec fn define(self, name: Seq<char>, value: RuntimeValue<'a>) -> Machine<'a> {
        Machine { scopes: scopes_define(self.scopes, self.current, name, value), ..self }
    }

    /// Returning `value`: the work of the function that is running is
    /// dropped, the machine is back at the caller, and the value is the
    /// call's result.
    pub open spec fn do_return(self, value: RuntimeValue<'a>) -> Outcome<'a> {
        match innermost_boundary(self.control, self.control.len()) {
            Some(index) => match self.control[index as int] {
                Task::Boundary { scope, height } => if scope < self.scopes.len()
                    && height <= self.operands.len() {
                    Machine {
                        control: self.control.subrange(0, index as int),
                        current: scope,
                        ..self
                    }.cut(height as int).with_value(value).proceed()
                } else {
                    self.fail(InterpreterError::Internal)
                },
                _ => self.fail(InterpreterError::Internal),
            },
            None => self.fail(InterpreterError::Internal),
        }
    }

    /// Declaring a class: the name is bound first, so that methods can refer
    /// to it; a scope that binds `super` lies around the methods of a class
    /// that has a superclass.
    pub open spec fn declare_class(
        self,
        name: &'a Token,
        superclass: &'a Option<Token>,
        methods: &'a Vec<FunctionStmt>,
    ) -> Outcome<'a> {
        let named = self.define(name.lexeme@, RuntimeValue::Nil);
        let handle = self.classes.len() as usize;
        match superclass {
            Some(parent) => match named.variable(parent) {
                Some(RuntimeValue::Class(ancestor)) => {
                    let inner = named.scopes.len() as usize;
                    let scopes = named.scopes.push(
                        Scope {
                            values: Map::<Seq<char>, RuntimeValue<'a>>::empty().insert(
                                "super"@,
                                RuntimeValue::Class(ancestor),
                            ),
                            enclosing: Some(self.current),
                        },
                    );
                    Machine {
                        scopes: scopes_assign(
                            scopes,
                            self.current,
                            name.lexeme@,
                            RuntimeValue::Class(handle),
                        ),
                        classes: self.classes.push(
                            ClassModel {
                                name: *name,
                                superclass: Some(ancestor),
                                methods: method_table(methods, methods@.len() as nat, inner),
                            },
                        ),
                        ..self
                    }.proceed()
                },
                _ => named.fail(InterpreterError::SuperclassMustBeClass(parent)),
            },
            None => Machine {
                scopes: scopes_assign(
                    named.scopes,
                    self.current,
                    name.lexeme@,
                    RuntimeValue::Class(handle),
                ),
                classes: self.classes.push(
                    ClassModel {
                        name: *name,
                        superclass: None,
                        methods: method_table(methods, methods@.len() as nat, self.current),
                    },
                ),
                ..self
            }.proceed(),
        }
    }

    /// Starting on a statement.
    pub open spec fn execute(self, statement: &'a Stmt) -> Outcome<'a> {
        match statement {
            Stmt::Expression { expression } => self.with_task(Task::Discard).with_task(
                Task::Evaluate(expression),
            ).proceed(),
            Stmt::Print { expression } => self.with_task(Task::Print).with_task(
                Task::Evaluate(expression),
            ).proceed(),
            Stmt::Return { value, .. } => match value {
                Some(result) => self.with_task(Task::Return).with_task(Task::Evaluate(result)).proceed(),
                None => self.do_return(RuntimeValue::Nil),
            },
            Stmt::Var { name, initializer } => match initializer {
                Some(value) => self.with_task(Task::Define(name)).with_task(
                    Task::Evaluate(value),
                ).proceed(),
                None => self.define(name.lexeme@, RuntimeValue::Nil).proceed(),
            },
            Stmt::Block { statements } => Machine {
                scopes: self.scopes.push(
                    Scope {
                        values: Map::<Seq<char>, RuntimeValue<'a>>::empty(),
                        enclosing: Some(self.current),
                    },
                ),
                ..self
            }.execute_block(statements, self.scopes.len() as usize).proceed(),
            Stmt::If { condition, .. } => self.with_task(Task::Branch(statement)).with_task(
                Task::Evaluate(condition),
            ).proceed(),
            Stmt::While { condition, .. } => self.with_task(Task::Loop(statement)).with_task(
                Task::Evaluate(condition),
            ).proceed(),
            Stmt::Function(fun) => self.define(
                fun.name.lexeme@,
                RuntimeValue::UserFunction(UserFunction { declaration: fun, closure: self.current }),
            ).proceed(),
            Stmt::Class { name, superclass, methods } => self.declare_class(name, superclass, methods),
        }
    }

    /// Assigning the top operand: by distance where the resolver recorded
    /// one for this token, else by name among the globals. An assignment to
    /// a global that does not exist changes nothing.
    pub open spec fn assign(self, name: &'a Token) -> Outcome<'a> {
        if self.operands.len() == 0 {
            self.fail(InterpreterError::Internal)
        } else if self.locals.contains_key(name.scanner_index) {
            Machine {
                scopes: scopes_assign_at(
                    self.scopes,
                    self.current,
                    self.locals[name.scanner_index] as nat,
                    name.lexeme@,
                    self.operands.last(),
                ),
                ..self
            }.proceed()
        } else {
            Machine {
                scopes: scopes_assign(self.scopes, 0, name.lexeme@, self.operands.last()),
                ..self
            }.proceed()
        }
    }

    /// Applying a unary operator to the top operand.
    pub open spec fn unary(self, operator: &'a Token) -> Outcome<'a> {
        if self.operands.len() == 0 {
            self.fail(InterpreterError::Internal)
        } else {
            let operand = self.operands.last();
            let rest = self.cut(self.operands.len() - 1);
            match operator.kind {
                TokenKind::Minus => match operand {
                    RuntimeValue::Number(n) => (rest.with_task(Task::Receive(0)), Action::Negate(n)),
                    _ => self.fail(InterpreterError::UnaryMinusOperandMustBeNumber(operand)),
                },
                TokenKind::Bang => rest.with_value(RuntimeValue::Bool(!operand.truthy())).proceed(),
                _ => self.fail(InterpreterError::Internal),
            }
        }
    }

    /// Applying a binary operator to the two top operands. Work on two
    /// numbers goes to the host; strings are joined and values are compared
    /// for equality here.
    pub open spec fn binary(self, operator: &'a Token) -> Outcome<'a> {
        if self.operands.len() < 2 {
            self.fail(InterpreterError::Internal)
        } else {
            let right = self.operands.last();
            let left = self.operands[self.operands.len() - 2];
            let rest = self.cut(self.operands.len() - 2);
            match (operator.kind, left, right) {
                (TokenKind::Minus, RuntimeValue::Number(l), RuntimeValue::Number(r))
                | (TokenKind::Slash, RuntimeValue::Number(l), RuntimeValue::Number(r))
                | (TokenKind::Star, RuntimeValue::Number(l), RuntimeValue::Number(r))
                | (TokenKind::Plus, RuntimeValue::Number(l), RuntimeValue::Number(r)) => (
                    rest.with_task(Task::Receive(0)),
                    Action::Arithmetic { operator: operator.kind, left: l, right: r },
                ),
                (TokenKind::Greater, RuntimeValue::Number(l), RuntimeValue::Number(r))
                | (TokenKind::GreaterEqual, RuntimeValue::Number(l), RuntimeValue::Number(r))
                | (TokenKind::Less, RuntimeValue::Number(l), RuntimeValue::Number(r))
                | (TokenKind::LessEqual, RuntimeValue::Number(l), RuntimeValue::Number(r))
                | (TokenKind::EqualEqual, RuntimeValue::Number(l), RuntimeValue::Number(r))
                | (TokenKind::BangEqual, RuntimeValue::Number(l), RuntimeValue::Number(r)) => (
                    rest.with_task(Task::Receive(0)),
                    Action::Compare { operator: operator.kind, left: l, right: r },
                ),
                (TokenKind::Plus, RuntimeValue::Str(l), RuntimeValue::Str(r)) => if l
                    < self.strings.len() && r < self.strings.len() {
                    Machine {
                        strings: self.strings.push(self.strings[l as int] + self.strings[r as int]),
                        ..rest
                    }.with_value(RuntimeValue::Str(self.strings.len() as usize)).proceed()
                } else {
                    self.fail(InterpreterError::Internal)
                },
                (TokenKind::Plus, _, _) => self.fail(InterpreterError::OperandsMustBeNumbersOrStr),
                (TokenKind::Minus, _, _)
                | (TokenKind::Slash, _, _)
                | (TokenKind::Star, _, _)
                | (TokenKind::Greater, _, _)
                | (TokenKind::GreaterEqual, _, _)
                | (TokenKind::Less, _, _)
                | (TokenKind::LessEqual, _, _) => self.fail(InterpreterError::OperandsMustBeNumbers),
                (TokenKind::EqualEqual, _, _) => rest.with_value(
                    RuntimeValue::Bool(values_equal(left, right, self.strings)),
                ).proceed(),
                (TokenKind::BangEqual, _, _) => rest.with_value(
                    RuntimeValue::Bool(!values_equal(left, right, self.strings)),
                ).proceed(),
                _ => self.fail(InterpreterError::Internal),
            }
        }
    }

    /// Finishing `and` and `or`: the left operand is the result where it
    /// decides, and the right operand is not computed then.
    pub open spec fn logical(self, expression: &'a Expr) -> Outcome<'a> {
        match expression {
            Expr::Logical { operator, right, .. } => if self.operands.len() == 0 {
                self.fail(InterpreterError::Internal)
            } else if (operator.kind == TokenKind::Or) == self.operands.last().truthy() {
                self.proceed()
            } else {
                self.cut(self.operands.len() - 1).with_task(Task::Evaluate(right)).proceed()
            },
            _ => self.fail(InterpreterError::Internal),
        }
    }

    /// Going on with a call: the next argument, or the call itself once
    /// callee and arguments are all on the operands.
    pub open spec fn arguments(self, call: &'a Expr, next: usize) -> Outcome<'a> {
        match call {
            Expr::Call { paren, arguments, .. } => if next < arguments@.len() {
                self.with_task(Task::Arguments(call, (next + 1) as usize)).with_task(
                    Task::Evaluate(&arguments@[next as int]),
                ).proceed()
            } else {
                self.invoke(paren, arguments@.len() as usize)
            },
            _ => self.fail(InterpreterError::Internal),
        }
    }

    /// The number of arguments that a callable takes: a class takes what its
    /// initializer takes, and nothing where it has none.
    pub open spec fn arity(self, callable: Callable<'a>) -> Option<usize> {
        match callable {
            Callable::BuiltIn(function) => if function < self.natives.len() {
                Some(self.natives[function as int])
            } else {
                None
            },
            Callable::Function(function) => Some(function.declaration.params@.len() as usize),
            Callable::Class(class) => if class < self.classes.len() {
                match classes_find_method(self.classes, class, "init"@) {
                    Some(initializer) => Some(initializer.declaration.params@.len() as usize),
                    None => Some(0),
                }
            } else {
                None
            },
        }
    }

    /// Entering a function whose callee and `count` arguments are on top of
    /// the operands: the arguments are bound to the parameters in a new
    /// scope inside the function's closure, and the body runs there.
    pub open spec fn enter(self, function: UserFunction<'a>, count: usize) -> Outcome<'a> {
        if function.closure >= self.scopes.len() || self.operands.len() < count + 1 {
            self.fail(InterpreterError::Internal)
        } else {
            let height = self.operands.len() - count - 1;
            Machine {
                scopes: self.scopes.push(
                    Scope {
                        values: bound_parameters(
                            &function.declaration.params,
                            self.operands.subrange(height + 1, self.operands.len() as int),
                            count as nat,
                        ),
                        enclosing: Some(function.closure),
                    },
                ),
                current: self.scopes.len() as usize,
                ..self
            }.cut(height).with_task(
                Task::Boundary { scope: self.current, height: height as usize },
            ).with_task(Task::Sequence(&function.declaration.body, 0)).proceed()
        }
    }

    /// What calling a callable does once the number of arguments is found
    /// right; callee and arguments are on top of the operands. A host
    /// function is the host's to run; a function of the program is entered;
    /// a class makes an instance, which its initializer then fills, and the
    /// instance is the result whatever the initializer returns.
    pub open spec fn call(self, callable: Callable<'a>, count: usize) -> Outcome<'a> {
        match callable {
            Callable::BuiltIn(function) => (
                self.with_task(Task::Receive((count + 1) as usize)),
                Action::CallBuiltIn { function, arguments: count },
            ),
            Callable::Function(function) => self.enter(function, count),
            Callable::Class(class) => {
                let this = self.instances.len() as usize;
                let made = Machine {
                    instances: self.instances.push(
                        InstanceModel {
                            class,
                            fields: Map::<Seq<char>, RuntimeValue<'a>>::empty(),
                            names: Seq::<Seq<char>>::empty(),
                        },
                    ),
                    ..self
                };
                match classes_find_method(self.classes, class, "init"@) {
                    Some(initializer) => Machine {
                        scopes: self.scopes.push(bound_scope(initializer, this)),
                        ..made
                    }.with_task(Task::Replace(RuntimeValue::Instance(this))).enter(
                        UserFunction {
                            declaration: initializer.declaration,
                            closure: self.scopes.len() as usize,
                        },
                        count,
                    ),
                    None => made.cut(self.operands.len() - count - 1).with_value(
                        RuntimeValue::Instance(this),
                    ).proceed(),
                }
            },
        }
    }

    /// Calling the operand that lies under `count` arguments. The number of
    /// arguments is checked before anything of the callee runs.
    pub open spec fn invoke(self, paren: &'a Token, count: usize) -> Outcome<'a> {
        if self.operands.len() < count + 1 {
            self.fail(InterpreterError::Internal)
        } else {
            let callee = self.operands[self.operands.len() - count - 1];
            match callee.callable() {
                None => self.fail(InterpreterError::NotCallable(callee)),
                Some(callable) => match self.arity(callable) {
                    None => self.fail(InterpreterError::Internal),
                    Some(arity) => if arity != count {
                        self.fail(InterpreterError::FunctionArity(paren, arity, count))
                    } else {
                        self.call(callable, count)
                    },
                },
            }
        }
    }

    /// Reading a property of the top operand, which must be an instance.
    pub open spec fn get_property(self, name: &'a Token) -> Outcome<'a> {
        if self.operands.len() == 0 {
            self.fail(InterpreterError::Internal)
        } else {
            match self.operands.last() {
                RuntimeValue::Instance(this) => if this < self.instances.len() {
                    let (value, scopes) = instance_get(
                        self.instances[this as int],
                        this,
                        name.lexeme@,
                        self.classes,
                        self.scopes,
                    );
                    match value {
                        Some(found) => Machine { scopes, ..self }.cut(
                            self.operands.len() - 1,
                        ).with_value(found).proceed(),
                        None => self.fail(InterpreterError::UndefinedProperty(name)),
                    }
                } else {
                    self.fail(InterpreterError::Internal)
                },
                _ => self.fail(InterpreterError::MustAccessValueOnInstances),
            }
        }
    }

    /// The object of a property assignment is on top and must be an
    /// instance; the value is computed next.
    pub open spec fn set_value(self, expression: &'a Expr) -> Outcome<'a> {
        match expression {
            Expr::SetProperty { name, value, .. } => if self.operands.len() == 0 {
                self.fail(InterpreterError::Internal)
            } else {
                match self.operands.last() {
                    RuntimeValue::Instance(_) => self.with_task(Task::SetField(name)).with_task(
                        Task::Evaluate(value),
                    ).proceed(),
                    _ => self.fail(InterpreterError::MustAccessValueOnInstances),
                }
            },
            _ => self.fail(InterpreterError::Internal),
        }
    }

    /// Storing the top operand as a field of the instance below it; the
    /// value stays as the result.
    pub open spec fn set_field(self, name: &'a Token) -> Outcome<'a> {
        if self.operands.len() < 2 {
            self.fail(InterpreterError::Internal)
        } else {
            let value = self.operands.last();
            match self.operands[self.operands.len() - 2] {
                RuntimeValue::Instance(this) => if this < self.instances.len() {
                    Machine {
                        instances: self.instances.update(
                            this as int,
                            instance_set(self.instances[this as int], name.lexeme@, value),
                        ),
                        ..self
                    }.cut(self.operands.len() - 2).with_value(value).proceed()
                } else {
                    self.fail(InterpreterError::Internal)
                },
                _ => self.fail(InterpreterError::Internal),
            }
        }
    }

    /// Taking the host's answer.
    pub open spec fn receive(self, drop: usize, event: Event) -> Outcome<'a> {
        if drop > self.operands.len() {
            self.fail(InterpreterError::Internal)
        } else {
            let rest = self.cut(self.operands.len() - drop);
            match event {
                Event::Number(n) => rest.with_value(RuntimeValue::Number(n)).proceed(),
                Event::Bool(b) => rest.with_value(RuntimeValue::Bool(b)).proceed(),
                Event::Resume => self.fail(InterpreterError::Internal),
            }
        }
    }

    /// Choosing a branch of an `if` by the top operand.
    pub open spec fn branch(self, statement: &'a Stmt) -> Outcome<'a> {
        match statement {
            Stmt::If { then_branch, else_branch, .. } => if self.operands.len() == 0 {
                self.fail(InterpreterError::Internal)
            } else {
                let rest = self.cut(self.operands.len() - 1);
                if self.operands.last().truthy() {
                    rest.with_task(Task::Execute(then_branch)).proceed()
                } else {
                    match else_branch {
                        Some(other) => rest.with_task(Task::Execute(other)).proceed(),
                        None => rest.proceed(),
                    }
                }
            },
            _ => self.fail(InterpreterError::Internal),
        }
    }

    /// One round of a `while`: where the top operand is truthy the body runs
    /// and then the whole statement again.
    pub open spec fn repeat(self, statement: &'a Stmt) -> Outcome<'a> {
        match statement {
            Stmt::While { body, .. } => if self.operands.len() == 0 {
                self.fail(InterpreterError::Internal)
            } else {
                let rest = self.cut(self.operands.len() - 1);
                if self.operands.last().truthy() {
                    rest.with_task(Task::Execute(statement)).with_task(Task::Execute(body)).proceed()
                } else {
                    rest.proceed()
                }
            },
            _ => self.fail(InterpreterError::Internal),
        }
    }

    /// Doing one task that was taken off the pending work.
    pub open spec fn perform(self, task: Task<'a>, event: Event) -> Outcome<'a> {
        match task {
            Task::Execute(statement) => self.execute(statement),
            Task::Sequence(statements, next) => if next < statements@.len() {
                self.with_task(Task::Sequence(statements, (next + 1) as usize)).with_task(
                    Task::Execute(&statements@[next as int]),
                ).proceed()
            } else {
                self.proceed()
            },
            Task::Evaluate(expression) => self.evaluate(expression),
            Task::Receive(drop) => self.receive(drop, event),
            Task::Discard => if self.operands.len() == 0 {
                self.fail(InterpreterError::Internal)
            } else {
                self.cut(self.operands.len() - 1).proceed()
            },
            Task::Replace(value) => if self.operands.len() == 0 {
                self.fail(InterpreterError::Internal)
            } else {
                self.cut(self.operands.len() - 1).with_value(value).proceed()
            },
            Task::Print => if self.operands.len() == 0 {
                self.fail(InterpreterError::Internal)
            } else {
                (self.cut(self.operands.len() - 1), Action::Print(self.operands.last()))
            },
            Task::Return => if self.operands.len() == 0 {
                self.fail(InterpreterError::Internal)
            } else {
                self.cut(self.operands.len() - 1).do_return(self.operands.last())
            },
            Task::Define(name) => if self.operands.len() == 0 {
                self.fail(InterpreterError::Internal)
            } else {
                self.cut(self.operands.len() - 1).define(name.lexeme@, self.operands.last()).proceed()
            },
            Task::Assign(name) => self.assign(name),
            Task::Branch(statement) => self.branch(statement),
            Task::Loop(statement) => self.repeat(statement),
            Task::Restore(scope) => if scope < self.scopes.len() {
                Machine { current: scope, ..self }.proceed()
            } else {
                self.fail(InterpreterError::Internal)
            },
            Task::Boundary { scope, height } => if scope < self.scopes.len() && height
                <= self.operands.len() {
                Machine { current: scope, ..self }.cut(height as int).with_value(
                    RuntimeValue::Nil,
                ).proceed()
            } else {
                self.fail(InterpreterError::Internal)
            },
            Task::Unary(operator) => self.unary(operator),
            Task::Binary(operator) => self.binary(operator),
            Task::Logical(expression) => self.logical(expression),
            Task::Arguments(call, next) => self.arguments(call, next),
            Task::GetProperty(name) => self.get_property(name),
            Task::SetValue(expression) => self.set_value(expression),
            Task::SetField(name) => self.set_field(name),
        }
    }

    /// One step of the machine: the next pending task is done; with nothing
    /// pending the program is finished.
    pub open spec fn step(self, event: Event) -> Outcome<'a> {
        if self.control.len() == 0 {
            (self, Action::Finished)
        } else {
            Machine { control: self.control.drop_last(), ..self }.perform(self.control.last(), event)
        }
    }

    /// Steps until the host has something to do, at most `budget` steps
    /// beyond the first.
    pub open spec fn run(self, event: Event, budget: nat) -> Outcome<'a>
        decreases budget,
    {
        let (next, action) = self.step(event);
        if action is Continue && budget > 0 {
            next.run(Event::Resume, (budget - 1) as nat)
        } else {
            (next, action)
        }
    }
}

/// The innermost function boundary among the first `count` pending tasks.
pub open spec fn innermost_boundary(control: Seq<Task>, count: nat) -> Option<nat>
    decreases count,
{
    if count == 0 || count > control.len() {
        None
    } else if control[count - 1] is Boundary {
        Some((count - 1) as nat)
    } else {
        innermost_boundary(control, (count - 1) as nat)
    }
}

/// The first `count` parameters bound to the first `count` arguments; of two
/// parameters of one name the later one counts.
pub open spec fn bound_parameters<'a>(
    params: &Vec<Token>,
    arguments: Seq<RuntimeValue<'a>>,
    count: nat,
) -> Map<Seq<char>, RuntimeValue<'a>>
    decreases count,
{
    if count == 0 || count > params@.len() || count > arguments.len() {
        Map::empty()
    } else {
        bound_parameters(params, arguments, (count - 1) as nat).insert(
            params@[count - 1].lexeme@,
            arguments[count - 1],
        )
    }
}

/// The first `count` methods of a class as functions that close over
/// `closure`; of two methods of one name the later one counts.
pub open spec fn method_table<'a>(methods: &'a Vec<FunctionStmt>, count: nat, closure: usize) -> Map<
    Seq<char>,
    UserFunction<'a>,
>
    decreases count,
{
    if count == 0 || count > methods@.len() {
        Map::empty()
    } else {
        method_table(methods, (count - 1) as nat, closure).insert(
            methods@[count - 1].name.lexeme@,
            UserFunction { declaration: &methods@[count - 1], closure },
        )
    }
}

/// A call with another number of arguments than the callee takes stops the
/// program with an arity error; no scope is made and nothing of the callee
/// becomes pending work.
pub proof fn law_arity_checked_first<'a>(machine: Machine<'a>, paren: &'a Token, count: usize)
    requires
        machine.operands.len() >= count + 1,
        machine.operands[machine.operands.len() - count - 1].callable() is Some,
        machine.arity(machine.operands[machine.operands.len() - count - 1].callable().unwrap())
            is Some,
        machine.arity(
            machine.operands[machine.operands.len() - count - 1].callable().unwrap(),
        ).unwrap() != count,
    ensures
        machine.invoke(paren, count) == machine.fail(
            InterpreterError::FunctionArity(
                paren,
                machine.arity(
                    machine.operands[machine.operands.len() - count - 1].callable().unwrap(),
                ).unwrap(),
                count,
            ),
        ),
        machine.invoke(paren, count).0.scopes == machine.scopes,
        machine.invoke(paren, count).0.control.len() == 0,
{
}

/// How the operators take their operands: `+` adds two numbers and joins
/// two strings and takes nothing else; `-`, `*`, `/` and the four
/// comparisons take two numbers and nothing else.
pub proof fn law_operator_typing<'a>(machine: Machine<'a>, operator: &'a Token)
    requires
        machine.strings.len() <= usize::MAX,
        machine.operands.len() >= 2,
    ensures
        ({
            let right = machine.operands.last();
            let left = machine.operands[machine.operands.len() - 2];
            let numbers = left is Number && right is Number;
            let strings = left is Str && right is Str;
            let outcome = machine.binary(operator);
            &&& operator.kind == TokenKind::Plus && numbers ==> outcome.1 == (Action::Arithmetic {
                operator: TokenKind::Plus,
                left: left->Number_0,
                right: right->Number_0,
            })
            &&& operator.kind == TokenKind::Plus && strings && left->Str_0 < machine.strings.len()
                && right->Str_0 < machine.strings.len() ==> outcome.1 is Continue
                && outcome.0.operands.last() is Str && outcome.0.strings[outcome.0.operands.last()->Str_0 as int]
                == machine.strings[left->Str_0 as int] + machine.strings[right->Str_0 as int]
            &&& operator.kind == TokenKind::Plus && !numbers && !strings ==> outcome == machine.fail(
                InterpreterError::OperandsMustBeNumbersOrStr,
            )
            &&& (operator.kind == TokenKind::Minus || operator.kind == TokenKind::Star
                || operator.kind == TokenKind::Slash) && numbers ==> outcome.1 == (
            Action::Arithmetic {
                operator: operator.kind,
                left: left->Number_0,
                right: right->Number_0,
            })
            &&& (operator.kind == TokenKind::Minus || operator.kind == TokenKind::Star
                || operator.kind == TokenKind::Slash || operator.kind == TokenKind::Greater
                || operator.kind == TokenKind::GreaterEqual || operator.kind == TokenKind::Less
                || operator.kind == TokenKind::LessEqual) && !numbers ==> outcome == machine.fail(
                InterpreterError::OperandsMustBeNumbers,
            )
        }),
{
}

/// `super.method` is found from the class that `super` stands for: which
/// instances exist, and of which classes they are, plays no part in it.
pub proof fn law_super_ignores_instances<'a>(
    machine: Machine<'a>,
    instances: Seq<InstanceModel<'a>>,
    keyword: &'a Token,
    method: &'a Token,
)
    ensures
        (Machine { instances, ..machine }).super_method(keyword, method) == (
            Machine { instances, ..machine.super_method(keyword, method).0 },
            machine.super_method(keyword, method).1,
        ),
{
}

/// Where `super` stands for a class and `this` for an instance, the result
/// of `super.method` is the method that the lookup from that class finds.
pub proof fn law_super_dispatch<'a>(
    machine: Machine<'a>,
    keyword: &'a Token,
    method: &'a Token,
    class: usize,
    this: usize,
)
    requires
        machine.locals.contains_key(keyword.scanner_index),
        machine.locals[keyword.scanner_index] > 0,
        scopes_get_at(
            machine.scopes,
            machine.current,
            machine.locals[keyword.scanner_index] as nat,
            "super"@,
        ) == Some(RuntimeValue::Class(class)),
        scopes_get_at(
            machine.scopes,
            machine.current,
            (machine.locals[keyword.scanner_index] - 1) as nat,
            "this"@,
        ) == Some(RuntimeValue::Instance(this)),
        classes_find_method(machine.classes, class, method.lexeme@) is Some,
    ensures
        machine.super_method(keyword, method).1 is Continue,
        machine.super_method(keyword, method).0.operands.last() == RuntimeValue::UserFunction(
            UserFunction {
                declaration: classes_find_method(
                    machine.classes,
                    class,
                    method.lexeme@,
                ).unwrap().declaration,
                closure: machine.scopes.len() as usize,
            },
        ),
{
}

/// Entering a block makes exactly one scope, which lies inside the scope
/// that the block stands in.
pub proof fn law_block_makes_one_scope<'a>(machine: Machine<'a>, statement: &'a Stmt)
    requires
        machine.scopes.len() < usize::MAX,
        statement is Block,
    ensures
        machine.execute(statement).0.scopes.len() == machine.scopes.len() + 1,
        machine.execute(statement).0.scopes.last().enclosing == Some(machine.current),
        machine.execute(statement).0.current == machine.scopes.len(),
        machine.execute(statement).0.scopes.subrange(0, machine.scopes.len() as int)
            == machine.scopes,
{
    let after = machine.execute(statement).0;
    assert(after.scopes.subrange(0, machine.scopes.len() as int) =~= machine.scopes);
}

/// A call makes exactly one scope, which lies inside the scope that the
/// function was defined in, whatever scope the call stands in.
pub proof fn law_call_makes_one_scope<'a>(
    machine: Machine<'a>,
    function: UserFunction<'a>,
    count: usize,
)
    requires
        machine.scopes.len() < usize::MAX,
        function.closure < machine.scopes.len(),
        machine.operands.len() >= count + 1,
    ensures
        machine.enter(function, count).0.scopes.len() == machine.scopes.len() + 1,
        machine.enter(function, count).0.scopes.last().enclosing == Some(function.closure),
        machine.enter(function, count).0.current == machine.scopes.len(),
        machine.enter(function, count).0.scopes.subrange(0, machine.scopes.len() as int)
            == machine.scopes,
{
    let after = machine.enter(function, count).0;
    assert(after.scopes.subrange(0, machine.scopes.len() as int) =~= machine.scopes);
}

/// Where the left operand of `and` or `or` decides, it is the result and
/// nothing of the right operand becomes pending work.
pub proof fn law_short_circuit<'a>(machine: Machine<'a>, expression: &'a Expr)
    requires
        machine.operands.len() > 0,
        expression matches Expr::Logical { operator, .. } && (operator.kind == TokenKind::Or)
            == machine.operands.last().truthy(),
    ensures
        machine.logical(expression) == machine.proceed(),
{
}

/// A step that stops the program with an error leaves no pending work and
/// no operands behind, and the machine back in the global scope; a step
/// before which nothing is pending is the end of the program.
pub proof fn law_failure_resets<'a>(machine: Machine<'a>, event: Event)
    ensures
        machine.step(event).1 is Failed ==> machine.step(event).0.control.len() == 0
            && machine.step(event).0.operands.len() == 0 && machine.step(event).0.current == 0,
        machine.step(event).1 is Finished <==> machine.control.len() == 0,
{
}

/// Whether `after` still has all that `before` has made: every scope, with
/// the same scope around it; every string and class, unchanged; and every
/// instance, of the same class.
pub open spec fn keeps<'a>(before: Machine<'a>, after: Machine<'a>) -> bool {
    &&& after.scopes.len() >= before.scopes.len()
    &&& forall|i: int|
        0 <= i < before.scopes.len() ==> (#[trigger] after.scopes[i]).enclosing
            == before.scopes[i].enclosing
    &&& after.strings.len() >= before.strings.len()
    &&& forall|i: int|
        0 <= i < before.strings.len() ==> #[trigger] after.strings[i] == before.strings[i]
    &&& after.classes.len() >= before.classes.len()
    &&& forall|i: int|
        0 <= i < before.classes.len() ==> #[trigger] after.classes[i] == before.classes[i]
    &&& after.instances.len() >= before.instances.len()
    &&& forall|i: int|
        0 <= i < before.instances.len() ==> (#[trigger] after.instances[i]).class
            == before.instances[i].class
}

/// An assignment by name moves no scope.
proof fn lemma_assign_keeps_links<'a>(
    scopes: Seq<Scope<'a>>,
    scope: usize,
    name: Seq<char>,
    value: RuntimeValue<'a>,
)
    ensures
        scopes_assign(scopes, scope, name, value).len() == scopes.len(),
        forall|i: int|
            0 <= i < scopes.len() ==> (#[trigger] scopes_assign(
                scopes,
                scope,
                name,
                value,
            )[i]).enclosing == scopes[i].enclosing,
{
    lemma_owner_in_range(scopes, scope, name);
}

/// An assignment by distance moves no scope.
proof fn lemma_assign_at_keeps_links<'a>(
    scopes: Seq<Scope<'a>>,
    scope: usize,
    distance: nat,
    name: Seq<char>,
    value: RuntimeValue<'a>,
)
    ensures
        scopes_assign_at(scopes, scope, distance, name, value).len() == scopes.len(),
        forall|i: int|
            0 <= i < scopes.len() ==> (#[trigger] scopes_assign_at(
                scopes,
                scope,
                distance,
                name,
                value,
            )[i]).enclosing == scopes[i].enclosing,
{
    lemma_ancestor_in_range(scopes, scope, distance);
}

/// Starting on an expression keeps what the run has made.
proof fn lemma_evaluate_keeps<'a>(machine: Machine<'a>, expression: &'a Expr)
    ensures
        keeps(machine, machine.evaluate(expression).0),
{
}

/// Declaring a class keeps what the run has made.
proof fn lemma_declare_class_keeps<'a>(
    machine: Machine<'a>,
    name: &'a Token,
    superclass: &'a Option<Token>,
    methods: &'a Vec<FunctionStmt>,
)
    requires
        machine.current < machine.scopes.len(),
    ensures
        keeps(machine, machine.declare_class(name, superclass, methods).0),
{
    let named = machine.define(name.lexeme@, RuntimeValue::Nil);
    let handle = RuntimeValue::Class(machine.classes.len() as usize);
    lemma_assign_keeps_links(named.scopes, machine.current, name.lexeme@, handle);
    match superclass {
        Some(parent) => {
            match named.variable(parent) {
                Some(RuntimeValue::Class(ancestor)) => {
                    let wider = named.scopes.push(
                        Scope {
                            values: Map::<Seq<char>, RuntimeValue<'a>>::empty().insert(
                                "super"@,
                                RuntimeValue::Class(ancestor),
                            ),
                            enclosing: Some(machine.current),
                        },
                    );
                    lemma_assign_keeps_links(wider, machine.current, name.lexeme@, handle);
                },
                _ => {},
            }
        },
        None => {},
    }
}

/// Starting on a statement keeps what the run has made.
proof fn lemma_execute_keeps<'a>(machine: Machine<'a>, statement: &'a Stmt)
    requires
        machine.current < machine.scopes.len(),
    ensures
        keeps(machine, machine.execute(statement).0),
{
    match statement {
        Stmt::Class { name, superclass, methods } => {
            lemma_declare_class_keeps(machine, name, superclass, methods);
        },
        _ => {},
    }
}

/// An assignment keeps what the run has made.
proof fn lemma_assign_keeps<'a>(machine: Machine<'a>, name: &'a Token)
    ensures
        keeps(machine, machine.assign(name).0),
{
    if machine.operands.len() > 0 {
        let value = machine.operands.last();
        if machine.locals.contains_key(name.scanner_index) {
            lemma_assign_at_keeps_links(
                machine.scopes,
                machine.current,
                machine.locals[name.scanner_index] as nat,
                name.lexeme@,
                value,
            );
        } else {
            lemma_assign_keeps_links(machine.scopes, 0, name.lexeme@, value);
        }
    }
}

/// A binary operator keeps what the run has made.
proof fn lemma_binary_keeps<'a>(machine: Machine<'a>, operator: &'a Token)
    ensures
        keeps(machine, machine.binary(operator).0),
{
}

/// Entering a function keeps what the run has made.
proof fn lemma_enter_keeps<'a>(machine: Machine<'a>, function: UserFunction<'a>, count: usize)
    ensures
        keeps(machine, machine.enter(function, count).0),
{
}

/// A call keeps what the run has made.
proof fn lemma_invoke_keeps<'a>(machine: Machine<'a>, paren: &'a Token, count: usize)
    ensures
        keeps(machine, machine.invoke(paren, count).0),
{
    if machine.operands.len() >= count + 1 {
        let callee = machine.operands[machine.operands.len() - count - 1];
        match callee.callable() {
            Some(Callable::Function(function)) => {
                lemma_enter_keeps(machine, function, count);
            },
            Some(Callable::Class(class)) => {
                let this = machine.instances.len() as usize;
                let made = Machine {
                    instances: machine.instances.push(
                        InstanceModel {
                            class,
                            fields: Map::<Seq<char>, RuntimeValue<'a>>::empty(),
                            names: Seq::<Seq<char>>::empty(),
                        },
                    ),
                    ..machine
                };
                match classes_find_method(machine.classes, class, "init"@) {
                    Some(initializer) => {
                        let bound = Machine {
                            scopes: machine.scopes.push(bound_scope(initializer, this)),
                            ..made
                        }.with_task(Task::Replace(RuntimeValue::Instance(this)));
                        lemma_enter_keeps(
                            bound,
                            UserFunction {
                                declaration: initializer.declaration,
                                closure: machine.scopes.len() as usize,
                            },
                            count,
                        );
                    },
                    None => {},
                }
            },
            _ => {},
        }
    }
}

/// Going on with a call keeps what the run has made.
proof fn lemma_arguments_keeps<'a>(machine: Machine<'a>, call: &'a Expr, next: usize)
    ensures
        keeps(machine, machine.arguments(call, next).0),
{
    match call {
        Expr::Call { paren, arguments, .. } => {
            if next >= arguments@.len() {
                lemma_invoke_keeps(machine, paren, arguments@.len() as usize);
            }
        },
        _ => {},
    }
}

/// Nothing that a run has made goes away: a step removes no scope, string,
/// class or instance, and it changes no string, no class, the class of no
/// instance, and of no scope the scope around it.
pub proof fn law_stores_grow<'a>(machine: Machine<'a>, event: Event)
    requires
        machine.wf(),
    ensures
        keeps(machine, machine.step(event).0),
{
    if machine.control.len() > 0 {
        let rest = Machine { control: machine.control.drop_last(), ..machine };
        match machine.control.last() {
            Task::Execute(statement) => lemma_execute_keeps(rest, statement),
            Task::Evaluate(expression) => lemma_evaluate_keeps(rest, expression),
            Task::Receive(drop) => {
                assert(keeps(rest, rest.receive(drop, event).0));
            },
            Task::Return => {
                if rest.operands.len() > 0 {
                    assert(keeps(
                        rest,
                        rest.cut(rest.operands.len() - 1).do_return(rest.operands.last()).0,
                    ));
                }
            },
            Task::Assign(name) => lemma_assign_keeps(rest, name),
            Task::Branch(statement) => {
                assert(keeps(rest, rest.branch(statement).0));
            },
            Task::Loop(statement) => {
                assert(keeps(rest, rest.repeat(statement).0));
            },
            Task::Unary(operator) => {
                assert(keeps(rest, rest.unary(operator).0));
            },
            Task::Binary(operator) => lemma_binary_keeps(rest, operator),
            Task::Logical(expression) => {
                assert(keeps(rest, rest.logical(expression).0));
            },
            Task::Arguments(call, next) => lemma_arguments_keeps(rest, call, next),
            Task::GetProperty(name) => {
                assert(keeps(rest, rest.get_property(name).0));
            },
            Task::SetValue(expression) => {
                assert(keeps(rest, rest.set_value(expression).0));
            },
            Task::SetField(name) => {
                assert(keeps(rest, rest.set_field(name).0));
            },
            _ => {},
        }
    }
}

impl<'a> InterpreterError<'a> {
    /// The message of an error; `shown` is the text of the value that the
    /// error carries, and plays no part where it carries none.
    pub open spec fn message_text(self, shown: Seq<char>) -> Seq<char> {
        match self {
            InterpreterError::Internal => "Unexpected error."@,
            InterpreterError::UnaryMinusOperandMustBeNumber(_) =>
                "Unary minus must be applied to number, but value was "@ + shown + "."@,
            InterpreterError::OperandsMustBeNumbers => "Operands must be numbers."@,
            InterpreterError::OperandsMustBeNumbersOrStr => "Operands must be numbers or strings."@,
            InterpreterError::UndefinedVariable(token) => "Undefined variable '"@ + token.lexeme@
                + "'."@,
            InterpreterError::UndefinedProperty(token) => "Undefined property '"@ + token.lexeme@
                + "'."@,
            InterpreterError::NotCallable(_) => "'"@ + shown + "' is not callable."@,
            InterpreterError::FunctionArity(_, expected, got) => "Expected "@ + decimal_text(
                expected as nat,
            ) + " arguments but got "@ + decimal_text(got as nat) + "."@,
            InterpreterError::MustAccessValueOnInstances => "Only instances have properties."@,
            InterpreterError::SuperclassMustBeClass(token) => "Superclass '"@ + token.lexeme@
                + "' must be a class."@,
        }
    }

    /// The value that the error carries, if it carries one.
    pub fn value(&self) -> (carried: Option<RuntimeValue<'a>>)
        ensures
            carried == (match *self {
                InterpreterError::UnaryMinusOperandMustBeNumber(value) => Some(value),
                InterpreterError::NotCallable(value) => Some(value),
                _ => None,
            }),
    {
        match self {
            InterpreterError::UnaryMinusOperandMustBeNumber(value) => Some(*value),
            InterpreterError::NotCallable(value) => Some(*value),
            _ => None,
        }
    }

    /// Writes the message of the error; `shown` is the text of the value
    /// that the error carries.
    pub fn message(&self, shown: &str) -> (text: String)
        ensures
            text@ == self.message_text(shown@),
    {
        match self {
            InterpreterError::Internal => "Unexpected error.".to_owned(),
            InterpreterError::UnaryMinusOperandMustBeNumber(_) => framed(
                "Unary minus must be applied to number, but value was ",
                shown,
                ".",
            ),
            InterpreterError::OperandsMustBeNumbers => "Operands must be numbers.".to_owned(),
            InterpreterError::OperandsMustBeNumbersOrStr => "Operands must be numbers or strings.".to_owned(),
            InterpreterError::UndefinedVariable(token) => framed(
                "Undefined variable '",
                token.lexeme.as_str(),
                "'.",
            ),
            InterpreterError::UndefinedProperty(token) => framed(
                "Undefined property '",
                token.lexeme.as_str(),
                "'.",
            ),
            InterpreterError::NotCallable(_) => framed("'", shown, "' is not callable."),
            InterpreterError::FunctionArity(_, expected, got) => {
                let mut text = framed("Expected ", decimal(*expected).as_str(), " arguments but got ");
                text.append(decimal(*got).as_str());
                text.append(".");
                text
            },
            InterpreterError::MustAccessValueOnInstances => "Only instances have properties.".to_owned(),
            InterpreterError::SuperclassMustBeClass(token) => framed(
                "Superclass '",
                token.lexeme.as_str(),
                "' must be a class.",
            ),
        }
    }
}

} // verus!
