use vstd::prelude::*;
use vstd::hash_map::StringHashMap;
use crate::ast::{Expr, FunctionStmt, Stmt};
use crate::environment::{
    lemma_assign_at_keeps_length,
    lemma_assign_keeps_length,
    Environment,
    Scope,
};
use crate::machine::{
    bound_parameters,
    innermost_boundary,
    method_table,
    Action,
    Event,
    InterpreterError,
    Machine,
    Task,
};
use crate::resolver::SideTable;
use crate::text::{framed, join, join_names, joined, names_of};
use crate::token::{Literal, Token, TokenKind};
use crate::value::{
    class_models,
    lemma_found_method_is_stored,
    instance_models,
    texts,
    BuiltInFunction,
    Callable,
    ClassDefinition,
    ClassInstance,
    InstanceModel,
    RuntimeValue,
    UserFunction,
};

verus! {

/// The number of parameters of each host function.
pub open spec fn native_arities(natives: Seq<BuiltInFunction>) -> Seq<usize> {
    Seq::new(natives.len(), |i: int| natives[i].args@.len() as usize)
}

/// The evaluator. It does one step at a time and hands the work that only
/// the host can do (arithmetic on numbers, printing, the clock) back to the
/// caller, who answers with the next step.
pub struct Interpreter<'a> {
    pub environment: Environment<'a>,
    pub current: usize,
    pub locals: SideTable,
    pub strings: Vec<String>,
    pub natives: Vec<BuiltInFunction>,
    pub classes: Vec<ClassDefinition<'a>>,
    pub instances: Vec<ClassInstance<'a>>,
    pub control: Vec<Task<'a>>,
    pub operands: Vec<RuntimeValue<'a>>,
}

impl<'a> View for Interpreter<'a> {
    type V = Machine<'a>;

    open spec fn view(&self) -> Machine<'a> {
        Machine {
            scopes: self.environment@,
            current: self.current,
            locals: self.locals@,
            strings: texts(self.strings@),
            natives: native_arities(self.natives@),
            classes: class_models(self.classes@),
            instances: instance_models(self.instances@),
            control: self.control@,
            operands: self.operands@,
        }
    }
}

impl<'a> Interpreter<'a> {
    /// Whether the interpreter's state is well-formed.
    pub open spec fn wf(&self) -> bool {
        self@.wf()
    }

    /// An interpreter whose global scope holds the host function `clock`,
    /// which takes no arguments.
    pub fn new() -> (interpreter: Self)
        ensures
            interpreter.wf(),
            interpreter@ == (Machine {
                scopes: seq![
                    Scope {
                        values: Map::<Seq<char>, RuntimeValue<'a>>::empty().insert(
                            "clock"@,
                            RuntimeValue::BuiltInFunction(0),
                        ),
                        enclosing: None,
                    },
                ],
                current: 0,
                locals: Map::empty(),
                strings: Seq::empty(),
                natives: seq![0usize],
                classes: Seq::empty(),
                instances: Seq::empty(),
                control: Seq::empty(),
                operands: Seq::empty(),
            }),
    {
        let mut environment = Environment::new();
        environment.define(0, "clock", RuntimeValue::BuiltInFunction(0));
        let mut natives = Vec::new();
        natives.push(BuiltInFunction::new("clock", Vec::new()));
        let interpreter = Interpreter {
            environment,
            current: 0,
            locals: SideTable::new(),
            strings: Vec::new(),
            natives,
            classes: Vec::new(),
            instances: Vec::new(),
            control: Vec::new(),
            operands: Vec::new(),
        };
        assert(interpreter@ =~~= (Machine {
            scopes: seq![
                Scope {
                    values: Map::<Seq<char>, RuntimeValue<'a>>::empty().insert(
                        "clock"@,
                        RuntimeValue::BuiltInFunction(0),
                    ),
                    enclosing: None,
                },
            ],
            current: 0,
            locals: Map::empty(),
            strings: Seq::empty(),
            natives: seq![0usize],
            classes: Seq::empty(),
            instances: Seq::empty(),
            control: Seq::empty(),
            operands: Seq::empty(),
        }));
        interpreter
    }

    /// Records the distance of a resolved expression. Expressions that are
    /// no use of a name are not recorded.
    pub fn resolve(&mut self, expr: &Expr, depth: usize)
        requires
            old(self).wf(),
        ensures
            final(self).wf(),
            final(self)@ == (Machine {
                locals: match expression_key(expr) {
                    Some(key) => old(self)@.locals.insert(key, depth),
                    None => old(self)@.locals,
                },
                ..old(self)@
            }),
    {
        match expr {
            Expr::Variable { name } => self.locals.record(name.scanner_index, depth),
            Expr::Assign { name, .. } => self.locals.record(name.scanner_index, depth),
            Expr::This { keyword } => self.locals.record(keyword.scanner_index, depth),
            Expr::Super { keyword, .. } => self.locals.record(keyword.scanner_index, depth),
            _ => {},
        }
    }

    /// Takes over the distances that the resolver recorded for a program.
    pub fn install(&mut self, locals: SideTable)
        requires
            old(self).wf(),
        ensures
            final(self).wf(),
            final(self)@ == (Machine { locals: locals@, ..old(self)@ }),
    {
        self.locals = locals;
    }

    /// Makes the statements the pending work, to be run in the global scope.
    /// Work that was pending before is dropped.
    pub fn interpret(&mut self, statements: &'a Vec<Stmt>)
        requires
            old(self).wf(),
        ensures
            final(self).wf(),
            final(self)@ == (Machine {
                control: seq![Task::Sequence(statements, 0)],
                operands: Seq::empty(),
                current: 0,
                ..old(self)@
            }),
    {
        self.control.clear();
        self.operands.clear();
        self.current = 0;
        self.control.push(Task::Sequence(statements, 0));
        assert(self@ =~~= (Machine {
            control: seq![Task::Sequence(statements, 0)],
            operands: Seq::empty(),
            current: 0,
            ..old(self)@
        }));
    }

    fn fail(&mut self, error: InterpreterError<'a>) -> (action: Action<'a>)
        requires
            old(self).wf(),
        ensures
            final(self).wf(),
            (final(self)@, action) == old(self)@.fail(error),
    {
        self.control.clear();
        self.operands.clear();
        self.current = 0;
        assert(self@ =~~= old(self)@.fail(error).0);
        Action::Failed(error)
    }

    fn push_task(&mut self, task: Task<'a>)
        ensures
            final(self)@ == old(self)@.with_task(task),
    {
        self.control.push(task);
        assert(self@ =~~= old(self)@.with_task(task));
    }

    fn push_value(&mut self, value: RuntimeValue<'a>)
        ensures
            final(self)@ == old(self)@.with_value(value),
    {
        self.operands.push(value);
        assert(self@ =~~= old(self)@.with_value(value));
    }

    /// Cuts the operands back to the lowest `height`.
    fn cut(&mut self, height: usize)
        requires
            height <= old(self)@.operands.len(),
        ensures
            final(self)@ == old(self)@.cut(height as int),
    {
        self.operands.truncate(height);
        assert(self@ =~~= old(self)@.cut(height as int));
    }

    /// Reads a variable: by distance where the resolver recorded one for
    /// this token, else by name among the globals.
    fn variable(&self, name: &'a Token) -> (found: Option<RuntimeValue<'a>>)
        requires
            self.wf(),
        ensures
            found == self@.variable(name),
    {
        match self.locals.distance(name.scanner_index) {
            Some(distance) => self.environment.get_at(self.current, distance, name.lexeme.as_str()),
            None => self.environment.get(0, name.lexeme.as_str()),
        }
    }

    /// Reads a variable and pushes its value; a name that is bound nowhere
    /// stops the program.
    fn look_up_variable(&mut self, name: &'a Token) -> (action: Action<'a>)
        requires
            old(self).wf(),
        ensures
            final(self).wf(),
            (final(self)@, action) == old(self)@.look_up_variable(name),
    {
        match self.variable(name) {
            Some(value) => {
                self.push_value(value);
                Action::Continue
            },
            None => self.fail(InterpreterError::UndefinedVariable(name)),
        }
    }
}

impl<'a> Interpreter<'a> {
    /// `super.method`: looks the method up from the class that `super`
    /// stands for and binds it to the instance that `this` stands for.
    fn super_method(&mut self, keyword: &'a Token, method: &'a Token) -> (action: Action<'a>)
        requires
            old(self).wf(),
        ensures
            final(self).wf(),
            (final(self)@, action) == old(self)@.super_method(keyword, method),
    {
        let distance = match self.locals.distance(keyword.scanner_index) {
            Some(distance) => distance,
            None => {
                return self.fail(InterpreterError::Internal);
            },
        };
        if distance == 0 {
            return self.fail(InterpreterError::Internal);
        }
        let superclass = self.environment.get_at(self.current, distance, "super");
        let object = self.environment.get_at(self.current, distance - 1, "this");
        match (superclass, object) {
            (Some(RuntimeValue::Class(class)), Some(RuntimeValue::Instance(this))) => {
                match ClassDefinition::find_method(&self.classes, class, method.lexeme.as_str()) {
                    Some(found) => {
                        proof {
                            lemma_found_method_is_stored(self@.classes, class, method.lexeme@);
                        }
                        let bound = found.bind(this, &mut self.environment);
                        self.push_value(RuntimeValue::UserFunction(bound));
                        Action::Continue
                    },
                    None => self.fail(InterpreterError::UndefinedProperty(method)),
                }
            },
            _ => self.fail(InterpreterError::Internal),
        }
    }

    /// Starts on an expression: a constant or a variable is pushed at once,
    /// the parts of any other expression become pending work.
    fn evaluate(&mut self, expression: &'a Expr) -> (action: Action<'a>)
        requires
            old(self).wf(),
        ensures
            final(self).wf(),
            (final(self)@, action) == old(self)@.evaluate(expression),
    {
        match expression {
            Expr::Literal { value } => match &value.literal {
                Literal::Nil => {
                    self.push_value(RuntimeValue::Nil);
                    Action::Continue
                },
                Literal::Bool(b) => {
                    self.push_value(RuntimeValue::Bool(*b));
                    Action::Continue
                },
                Literal::Str(text) => {
                    let handle = self.strings.len();
                    self.strings.push(text.clone());
                    self.operands.push(RuntimeValue::Str(handle));
                    assert(self@ =~~= old(self)@.evaluate(expression).0);
                    Action::Continue
                },
                Literal::Number => {
                    self.push_task(Task::Receive(0));
                    Action::Number(value)
                },
            },
            Expr::Variable { name } => self.look_up_variable(name),
            Expr::This { keyword } => self.look_up_variable(keyword),
            Expr::Super { keyword, method } => self.super_method(keyword, method),
            Expr::Assign { name, value } => {
                self.push_task(Task::Assign(name));
                self.push_task(Task::Evaluate(value));
                Action::Continue
            },
            Expr::Binary { left, operator, right } => {
                self.push_task(Task::Binary(operator));
                self.push_task(Task::Evaluate(right));
                self.push_task(Task::Evaluate(left));
                Action::Continue
            },
            Expr::Logical { left, .. } => {
                self.push_task(Task::Logical(expression));
                self.push_task(Task::Evaluate(left));
                Action::Continue
            },
            Expr::Unary { operator, right } => {
                self.push_task(Task::Unary(operator));
                self.push_task(Task::Evaluate(right));
                Action::Continue
            },
            Expr::Grouping { expression: inner } => {
                self.push_task(Task::Evaluate(inner));
                Action::Continue
            },
            Expr::Call { callee, .. } => {
                self.push_task(Task::Arguments(expression, 0));
                self.push_task(Task::Evaluate(callee));
                Action::Continue
            },
            Expr::Get { object, name } => {
                self.push_task(Task::GetProperty(name));
                self.push_task(Task::Evaluate(object));
                Action::Continue
            },
            Expr::SetProperty { object, .. } => {
                self.push_task(Task::SetValue(expression));
                self.push_task(Task::Evaluate(object));
                Action::Continue
            },
        }
    }
}

impl<'a> Interpreter<'a> {
    /// Enters a block: its statements become pending work that runs in
    /// `environment`, after which the machine is back in the scope it is in now.
    pub fn execute_block(&mut self, statements: &'a Vec<Stmt>, environment: usize)
        requires
            old(self).wf(),
            environment < old(self)@.scopes.len(),
        ensures
            final(self).wf(),
            final(self)@ == old(self)@.execute_block(statements, environment),
    {
        let previous = self.current;
        self.current = environment;
        self.push_task(Task::Restore(previous));
        self.push_task(Task::Sequence(statements, 0));
    }

    fn define(&mut self, name: &'a Token, value: RuntimeValue<'a>)
        requires
            old(self).wf(),
        ensures
            final(self).wf(),
            final(self)@ == old(self)@.define(name.lexeme@, value),
    {
        self.environment.define(self.current, name.lexeme.as_str(), value);
    }

    /// Returns `value` from the function that is running.
    fn do_return(&mut self, value: RuntimeValue<'a>) -> (action: Action<'a>)
        requires
            old(self).wf(),
        ensures
            final(self).wf(),
            (final(self)@, action) == old(self)@.do_return(value),
    {
        let mut index = self.control.len();
        while index > 0
            invariant
                index <= self.control@.len(),
                self.wf(),
                self@ == old(self)@,
                innermost_boundary(self@.control, self@.control.len()) == innermost_boundary(
                    self@.control,
                    index as nat,
                ),
            decreases index,
        {
            match self.control[index - 1] {
                Task::Boundary { scope, height } => {
                    if scope < self.environment.frames.len() && height <= self.operands.len() {
                        self.control.truncate(index - 1);
                        self.current = scope;
                        self.operands.truncate(height);
                        self.operands.push(value);
                        assert(self@ =~~= old(self)@.do_return(value).0);
                        return Action::Continue;
                    } else {
                        return self.fail(InterpreterError::Internal);
                    }
                },
                _ => {},
            }
            index = index - 1;
        }
        self.fail(InterpreterError::Internal)
    }

    /// Declares a class.
    fn declare_class(
        &mut self,
        name: &'a Token,
        superclass: &'a Option<Token>,
        methods: &'a Vec<FunctionStmt>,
    ) -> (action: Action<'a>)
        requires
            old(self).wf(),
        ensures
            final(self).wf(),
            (final(self)@, action) == old(self)@.declare_class(name, superclass, methods),
    {
        self.define(name, RuntimeValue::Nil);
        let ghost named = self@;
        let handle = self.classes.len();
        let (ancestor, closure) = match superclass {
            Some(parent) => match self.variable(parent) {
                Some(RuntimeValue::Class(ancestor)) => {
                    let inner = self.environment.child(self.current);
                    self.environment.define(inner, "super", RuntimeValue::Class(ancestor));
                    (Some(ancestor), inner)
                },
                _ => {
                    return self.fail(InterpreterError::SuperclassMustBeClass(parent));
                },
            },
            None => (None, self.current),
        };
        let mut table: StringHashMap<UserFunction<'a>> = StringHashMap::new();
        let mut i: usize = 0;
        while i < methods.len()
            invariant
                i <= methods@.len(),
                table@ == method_table(methods, i as nat, closure),
            decreases methods@.len() - i,
        {
            table.insert(methods[i].name.lexeme.clone(), UserFunction::new(&methods[i], closure));
            i = i + 1;
        }
        proof {
            lemma_method_table_closures(methods, methods@.len() as nat, closure);
        }
        self.classes.push(ClassDefinition::new(name, ancestor, table));
        self.environment.assign(self.current, name.lexeme.as_str(), RuntimeValue::Class(handle));
        assert(self@ =~~= old(self)@.declare_class(name, superclass, methods).0);
        Action::Continue
    }

    /// Starts on a statement.
    fn execute(&mut self, statement: &'a Stmt) -> (action: Action<'a>)
        requires
            old(self).wf(),
        ensures
            final(self).wf(),
            (final(self)@, action) == old(self)@.execute(statement),
    {
        match statement {
            Stmt::Expression { expression } => {
                self.push_task(Task::Discard);
                self.push_task(Task::Evaluate(expression));
                Action::Continue
            },
            Stmt::Print { expression } => {
                self.push_task(Task::Print);
                self.push_task(Task::Evaluate(expression));
                Action::Continue
            },
            Stmt::Return { value, .. } => match value {
                Some(result) => {
                    self.push_task(Task::Return);
                    self.push_task(Task::Evaluate(result));
                    Action::Continue
                },
                None => self.do_return(RuntimeValue::Nil),
            },
            Stmt::Var { name, initializer } => match initializer {
                Some(value) => {
                    self.push_task(Task::Define(name));
                    self.push_task(Task::Evaluate(value));
                    Action::Continue
                },
                None => {
                    self.define(name, RuntimeValue::Nil);
                    Action::Continue
                },
            },
            Stmt::Block { statements } => {
                let inner = self.environment.child(self.current);
                self.execute_block(statements, inner);
                Action::Continue
            },
            Stmt::If { condition, .. } => {
                self.push_task(Task::Branch(statement));
                self.push_task(Task::Evaluate(condition));
                Action::Continue
            },
            Stmt::While { condition, .. } => {
                self.push_task(Task::Loop(statement));
                self.push_task(Task::Evaluate(condition));
                Action::Continue
            },
            Stmt::Function(fun) => {
                let function = UserFunction::new(fun, self.current);
                self.define(&fun.name, RuntimeValue::UserFunction(function));
                Action::Continue
            },
            Stmt::Class { name, superclass, methods } => self.declare_class(name, superclass, methods),
        }
    }
}

impl<'a> Interpreter<'a> {
    /// Assigns the top operand to a variable and leaves it as the result.
    fn assign(&mut self, name: &'a Token) -> (action: Action<'a>)
        requires
            old(self).wf(),
        ensures
            final(self).wf(),
            (final(self)@, action) == old(self)@.assign(name),
    {
        let len = self.operands.len();
        if len == 0 {
            return self.fail(InterpreterError::Internal);
        }
        let value = self.operands[len - 1];
        match self.locals.distance(name.scanner_index) {
            Some(distance) => {
                self.environment.assign_at(self.current, distance, name.lexeme.as_str(), value);
                proof {
                    lemma_assign_at_keeps_length(
                        old(self)@.scopes,
                        self.current,
                        distance as nat,
                        name.lexeme@,
                        value,
                    );
                }
            },
            None => {
                self.environment.assign(0, name.lexeme.as_str(), value);
                proof {
                    lemma_assign_keeps_length(old(self)@.scopes, 0, name.lexeme@, value);
                }
            },
        }
        Action::Continue
    }

    /// Applies a unary operator to the top operand.
    fn unary(&mut self, operator: &'a Token) -> (action: Action<'a>)
        requires
            old(self).wf(),
        ensures
            final(self).wf(),
            (final(self)@, action) == old(self)@.unary(operator),
    {
        let len = self.operands.len();
        if len == 0 {
            return self.fail(InterpreterError::Internal);
        }
        let operand = self.operands[len - 1];
        match operator.kind {
            TokenKind::Minus => match operand {
                RuntimeValue::Number(n) => {
                    self.cut(len - 1);
                    self.push_task(Task::Receive(0));
                    Action::Negate(n)
                },
                _ => self.fail(InterpreterError::UnaryMinusOperandMustBeNumber(operand)),
            },
            TokenKind::Bang => {
                self.cut(len - 1);
                self.push_value(RuntimeValue::Bool(!operand.is_truthy()));
                Action::Continue
            },
            _ => self.fail(InterpreterError::Internal),
        }
    }

    /// Hands work on two numbers to the host.
    fn ask(&mut self, action: Action<'a>) -> (asked: Action<'a>)
        requires
            old(self).wf(),
            old(self)@.operands.len() >= 2,
        ensures
            final(self).wf(),
            asked == action,
            final(self)@ == old(self)@.cut(old(self)@.operands.len() - 2).with_task(Task::Receive(0)),
    {
        let len = self.operands.len();
        self.cut(len - 2);
        self.push_task(Task::Receive(0));
        action
    }

    /// Replaces the two top operands by `value`.
    fn answer(&mut self, value: RuntimeValue<'a>) -> (action: Action<'a>)
        requires
            old(self).wf(),
            old(self)@.operands.len() >= 2,
        ensures
            final(self).wf(),
            action == Action::<'a>::Continue,
            final(self)@ == old(self)@.cut(old(self)@.operands.len() - 2).with_value(value),
    {
        let len = self.operands.len();
        self.cut(len - 2);
        self.push_value(value);
        Action::Continue
    }

    /// Applies a binary operator to the two top operands.
    fn binary(&mut self, operator: &'a Token) -> (action: Action<'a>)
        requires
            old(self).wf(),
        ensures
            final(self).wf(),
            (final(self)@, action) == old(self)@.binary(operator),
    {
        let len = self.operands.len();
        if len < 2 {
            return self.fail(InterpreterError::Internal);
        }
        let right = self.operands[len - 1];
        let left = self.operands[len - 2];
        let kind = operator.kind;
        match kind {
            TokenKind::Minus | TokenKind::Slash | TokenKind::Star => match (left, right) {
                (RuntimeValue::Number(l), RuntimeValue::Number(r)) => self.ask(
                    Action::Arithmetic { operator: kind, left: l, right: r },
                ),
                _ => self.fail(InterpreterError::OperandsMustBeNumbers),
            },
            TokenKind::Plus => match (left, right) {
                (RuntimeValue::Number(l), RuntimeValue::Number(r)) => self.ask(
                    Action::Arithmetic { operator: kind, left: l, right: r },
                ),
                (RuntimeValue::Str(l), RuntimeValue::Str(r)) => {
                    if l < self.strings.len() && r < self.strings.len() {
                        let mut joined = self.strings[l].clone();
                        joined.append(self.strings[r].as_str());
                        let handle = self.strings.len();
                        self.strings.push(joined);
                        self.operands.truncate(len - 2);
                        self.operands.push(RuntimeValue::Str(handle));
                        assert(self@ =~~= old(self)@.binary(operator).0);
                        Action::Continue
                    } else {
                        self.fail(InterpreterError::Internal)
                    }
                },
                _ => self.fail(InterpreterError::OperandsMustBeNumbersOrStr),
            },
            TokenKind::Greater | TokenKind::GreaterEqual | TokenKind::Less | TokenKind::LessEqual => match (
                left,
                right,
            ) {
                (RuntimeValue::Number(l), RuntimeValue::Number(r)) => self.ask(
                    Action::Compare { operator: kind, left: l, right: r },
                ),
                _ => self.fail(InterpreterError::OperandsMustBeNumbers),
            },
            TokenKind::EqualEqual => match (left, right) {
                (RuntimeValue::Number(l), RuntimeValue::Number(r)) => self.ask(
                    Action::Compare { operator: kind, left: l, right: r },
                ),
                _ => {
                    let equal = left.equals(&right, &self.strings);
                    self.answer(RuntimeValue::Bool(equal))
                },
            },
            TokenKind::BangEqual => match (left, right) {
                (RuntimeValue::Number(l), RuntimeValue::Number(r)) => self.ask(
                    Action::Compare { operator: kind, left: l, right: r },
                ),
                _ => {
                    let equal = left.equals(&right, &self.strings);
                    self.answer(RuntimeValue::Bool(!equal))
                },
            },
            _ => self.fail(InterpreterError::Internal),
        }
    }

    /// Finishes `and` and `or`.
    fn logical(&mut self, expression: &'a Expr) -> (action: Action<'a>)
        requires
            old(self).wf(),
        ensures
            final(self).wf(),
            (final(self)@, action) == old(self)@.logical(expression),
    {
        match expression {
            Expr::Logical { operator, right, .. } => {
                let len = self.operands.len();
                if len == 0 {
                    return self.fail(InterpreterError::Internal);
                }
                let left = self.operands[len - 1];
                let is_or = match operator.kind {
                    TokenKind::Or => true,
                    _ => false,
                };
                if is_or == left.is_truthy() {
                    Action::Continue
                } else {
                    self.cut(len - 1);
                    self.push_task(Task::Evaluate(right));
                    Action::Continue
                }
            },
            _ => self.fail(InterpreterError::Internal),
        }
    }

    /// Takes the host's answer.
    fn receive(&mut self, drop: usize, event: Event) -> (action: Action<'a>)
        requires
            old(self).wf(),
        ensures
            final(self).wf(),
            (final(self)@, action) == old(self)@.receive(drop, event),
    {
        let len = self.operands.len();
        if drop > len {
            return self.fail(InterpreterError::Internal);
        }
        match event {
            Event::Number(n) => {
                self.cut(len - drop);
                self.push_value(RuntimeValue::Number(n));
                Action::Continue
            },
            Event::Bool(b) => {
                self.cut(len - drop);
                self.push_value(RuntimeValue::Bool(b));
                Action::Continue
            },
            Event::Resume => self.fail(InterpreterError::Internal),
        }
    }

    /// Chooses a branch of an `if`.
    fn branch(&mut self, statement: &'a Stmt) -> (action: Action<'a>)
        requires
            old(self).wf(),
        ensures
            final(self).wf(),
            (final(self)@, action) == old(self)@.branch(statement),
    {
        match statement {
            Stmt::If { then_branch, else_branch, .. } => {
                let len = self.operands.len();
                if len == 0 {
                    return self.fail(InterpreterError::Internal);
                }
                let condition = self.operands[len - 1];
                self.cut(len - 1);
                if condition.is_truthy() {
                    self.push_task(Task::Execute(then_branch));
                } else {
                    match else_branch {
                        Some(other) => {
                            self.push_task(Task::Execute(other));
                        },
                        None => {},
                    }
                }
                Action::Continue
            },
            _ => self.fail(InterpreterError::Internal),
        }
    }

    /// Does one round of a `while`.
    fn repeat(&mut self, statement: &'a Stmt) -> (action: Action<'a>)
        requires
            old(self).wf(),
        ensures
            final(self).wf(),
            (final(self)@, action) == old(self)@.repeat(statement),
    {
        match statement {
            Stmt::While { body, .. } => {
                let len = self.operands.len();
                if len == 0 {
                    return self.fail(InterpreterError::Internal);
                }
                let condition = self.operands[len - 1];
                self.cut(len - 1);
                if condition.is_truthy() {
                    self.push_task(Task::Execute(statement));
                    self.push_task(Task::Execute(body));
                }
                Action::Continue
            },
            _ => self.fail(InterpreterError::Internal),
        }
    }

    /// The object of a property assignment is on top: checks it and goes on
    /// with the value.
    fn set_value(&mut self, expression: &'a Expr) -> (action: Action<'a>)
        requires
            old(self).wf(),
        ensures
            final(self).wf(),
            (final(self)@, action) == old(self)@.set_value(expression),
    {
        match expression {
            Expr::SetProperty { name, value, .. } => {
                let len = self.operands.len();
                if len == 0 {
                    return self.fail(InterpreterError::Internal);
                }
                match self.operands[len - 1] {
                    RuntimeValue::Instance(_) => {
                        self.push_task(Task::SetField(name));
                        self.push_task(Task::Evaluate(value));
                        Action::Continue
                    },
                    _ => self.fail(InterpreterError::MustAccessValueOnInstances),
                }
            },
            _ => self.fail(InterpreterError::Internal),
        }
    }

    /// Stores the top operand as a field of the instance below it.
    fn set_field(&mut self, name: &'a Token) -> (action: Action<'a>)
        requires
            old(self).wf(),
        ensures
            final(self).wf(),
            (final(self)@, action) == old(self)@.set_field(name),
    {
        let len = self.operands.len();
        if len < 2 {
            return self.fail(InterpreterError::Internal);
        }
        let value = self.operands[len - 1];
        match self.operands[len - 2] {
            RuntimeValue::Instance(this) => {
                if this < self.instances.len() {
                    self.instances[this].set(name, value);
                    self.operands.truncate(len - 2);
                    self.operands.push(value);
                    assert(self@ =~~= old(self)@.set_field(name).0);
                    Action::Continue
                } else {
                    self.fail(InterpreterError::Internal)
                }
            },
            _ => self.fail(InterpreterError::Internal),
        }
    }

    /// Reads a property of the top operand.
    fn get_property(&mut self, name: &'a Token) -> (action: Action<'a>)
        requires
            old(self).wf(),
        ensures
            final(self).wf(),
            (final(self)@, action) == old(self)@.get_property(name),
    {
        let len = self.operands.len();
        if len == 0 {
            return self.fail(InterpreterError::Internal);
        }
        match self.operands[len - 1] {
            RuntimeValue::Instance(this) => {
                if this < self.instances.len() {
                    let found = self.instances[this].get(
                        this,
                        name,
                        &self.classes,
                        &mut self.environment,
                    );
                    match found {
                        Some(value) => {
                            self.operands.truncate(len - 1);
                            self.operands.push(value);
                            assert(self@ =~~= old(self)@.get_property(name).0);
                            Action::Continue
                        },
                        None => self.fail(InterpreterError::UndefinedProperty(name)),
                    }
                } else {
                    self.fail(InterpreterError::Internal)
                }
            },
            _ => self.fail(InterpreterError::MustAccessValueOnInstances),
        }
    }
}

impl<'a> Interpreter<'a> {
    /// Enters a function whose callee and `count` arguments are on top of
    /// the operands.
    fn enter(&mut self, function: UserFunction<'a>, count: usize) -> (action: Action<'a>)
        requires
            old(self).wf(),
        ensures
            final(self).wf(),
            (final(self)@, action) == old(self)@.enter(function, count),
    {
        let len = self.operands.len();
        if function.closure >= self.environment.frames.len() || len <= count {
            return self.fail(InterpreterError::Internal);
        }
        let height = len - count - 1;
        let scope = self.environment.child(function.closure);
        let params = &function.declaration.params;
        let ghost arguments = self.operands@.subrange(height + 1, len as int);
        let bindable = if count <= params.len() {
            count
        } else {
            0
        };
        let mut i: usize = 0;
        while i < bindable
            invariant
                i <= bindable,
                bindable == (if count <= params@.len() {
                    count
                } else {
                    0
                }),
                len == self.operands@.len(),
                height + count + 1 == len,
                arguments == self.operands@.subrange(height + 1, len as int),
                scope == old(self)@.scopes.len(),
                self.environment.wf(),
                self@ == (Machine { scopes: self.environment@, ..old(self)@ }),
                self.environment@ == old(self)@.scopes.push(
                    Scope {
                        values: bound_parameters(params, arguments, i as nat),
                        enclosing: Some(function.closure),
                    },
                ),
            decreases bindable - i,
        {
            self.environment.define(scope, params[i].lexeme.as_str(), self.operands[height + 1 + i]);
            i = i + 1;
            assert(self.environment@ =~= old(self)@.scopes.push(
                Scope {
                    values: bound_parameters(params, arguments, i as nat),
                    enclosing: Some(function.closure),
                },
            ));
        }
        let previous = self.current;
        self.current = scope;
        self.operands.truncate(height);
        self.control.push(Task::Boundary { scope: previous, height });
        self.control.push(Task::Sequence(&function.declaration.body, 0));
        assert(self@ =~~= old(self)@.enter(function, count).0);
        Action::Continue
    }

    /// Calls the operand that lies under `count` arguments.
    fn invoke(&mut self, paren: &'a Token, count: usize) -> (action: Action<'a>)
        requires
            old(self).wf(),
        ensures
            final(self).wf(),
            (final(self)@, action) == old(self)@.invoke(paren, count),
    {
        let len = self.operands.len();
        if len <= count {
            return self.fail(InterpreterError::Internal);
        }
        let callee = self.operands[len - count - 1];
        let callable = match callee.as_callable() {
            Some(callable) => callable,
            None => {
                return self.fail(InterpreterError::NotCallable(callee));
            },
        };
        let arity = match callable.arity(self) {
            Some(arity) => arity,
            None => {
                return self.fail(InterpreterError::Internal);
            },
        };
        if arity != count {
            return self.fail(InterpreterError::FunctionArity(paren, arity, count));
        }
        callable.call(self, count)
    }

    /// Goes on with a call: the next argument, or the call itself.
    fn arguments(&mut self, call: &'a Expr, next: usize) -> (action: Action<'a>)
        requires
            old(self).wf(),
        ensures
            final(self).wf(),
            (final(self)@, action) == old(self)@.arguments(call, next),
    {
        match call {
            Expr::Call { paren, arguments, .. } => {
                if next < arguments.len() {
                    self.push_task(Task::Arguments(call, next + 1));
                    self.push_task(Task::Evaluate(&arguments[next]));
                    Action::Continue
                } else {
                    self.invoke(paren, arguments.len())
                }
            },
            _ => self.fail(InterpreterError::Internal),
        }
    }

    /// Does one task that was taken off the pending work.
    fn perform(&mut self, task: Task<'a>, event: Event) -> (action: Action<'a>)
        requires
            old(self).wf(),
        ensures
            final(self).wf(),
            (final(self)@, action) == old(self)@.perform(task, event),
    {
        match task {
            Task::Execute(statement) => self.execute(statement),
            Task::Sequence(statements, next) => {
                if next < statements.len() {
                    self.push_task(Task::Sequence(statements, next + 1));
                    self.push_task(Task::Execute(&statements[next]));
                }
                Action::Continue
            },
            Task::Evaluate(expression) => self.evaluate(expression),
            Task::Receive(drop) => self.receive(drop, event),
            Task::Discard => {
                let len = self.operands.len();
                if len == 0 {
                    return self.fail(InterpreterError::Internal);
                }
                self.cut(len - 1);
                Action::Continue
            },
            Task::Replace(value) => {
                let len = self.operands.len();
                if len == 0 {
                    return self.fail(InterpreterError::Internal);
                }
                self.cut(len - 1);
                self.push_value(value);
                Action::Continue
            },
            Task::Print => {
                let len = self.operands.len();
                if len == 0 {
                    return self.fail(InterpreterError::Internal);
                }
                let value = self.operands[len - 1];
                self.cut(len - 1);
                Action::Print(value)
            },
            Task::Return => {
                let len = self.operands.len();
                if len == 0 {
                    return self.fail(InterpreterError::Internal);
                }
                let value = self.operands[len - 1];
                self.cut(len - 1);
                self.do_return(value)
            },
            Task::Define(name) => {
                let len = self.operands.len();
                if len == 0 {
                    return self.fail(InterpreterError::Internal);
                }
                let value = self.operands[len - 1];
                self.cut(len - 1);
                self.define(name, value);
                Action::Continue
            },
            Task::Assign(name) => self.assign(name),
            Task::Branch(statement) => self.branch(statement),
            Task::Loop(statement) => self.repeat(statement),
            Task::Restore(scope) => {
                if scope < self.environment.frames.len() {
                    self.current = scope;
                    Action::Continue
                } else {
                    self.fail(InterpreterError::Internal)
                }
            },
            Task::Boundary { scope, height } => {
                if scope < self.environment.frames.len() && height <= self.operands.len() {
                    self.current = scope;
                    self.cut(height);
                    self.push_value(RuntimeValue::Nil);
                    Action::Continue
                } else {
                    self.fail(InterpreterError::Internal)
                }
            },
            Task::Unary(operator) => self.unary(operator),
            Task::Binary(operator) => self.binary(operator),
            Task::Logical(expression) => self.logical(expression),
            Task::Arguments(call, next) => self.arguments(call, next),
            Task::GetProperty(name) => self.get_property(name),
            Task::SetValue(expression) => self.set_value(expression),
            Task::SetField(name) => self.set_field(name),
        }
    }

    /// Does the next pending task and says what the host has to do before
    /// the step after it. `event` is the host's answer to the action of the
    /// step before, `Event::Resume` where that action asked for none.
    pub fn step(&mut self, event: Event) -> (action: Action<'a>)
        requires
            old(self).wf(),
        ensures
            final(self).wf(),
            (final(self)@, action) == old(self)@.step(event),
    {
        match self.control.pop() {
            Some(task) => {
                assert(self@ =~~= (Machine {
                    control: old(self)@.control.drop_last(),
                    ..old(self)@
                }));
                self.perform(task, event)
            },
            None => Action::Finished,
        }
    }

    /// Steps until the host has something to do, the program ends, or
    /// `budget` steps beyond the first are done; in the last case the result
    /// is `Action::Continue`.
    pub fn run(&mut self, event: Event, budget: usize) -> (action: Action<'a>)
        requires
            old(self).wf(),
        ensures
            final(self).wf(),
            (final(self)@, action) == old(self)@.run(event, budget as nat),
    {
        let mut action = self.step(event);
        let mut left = budget;
        while left > 0 && is_continue(&action)
            invariant
                self.wf(),
                old(self)@.run(event, budget as nat) == (if action is Continue && left > 0 {
                    self@.run(Event::Resume, (left - 1) as nat)
                } else {
                    (self@, action)
                }),
            decreases left,
        {
            action = self.step(Event::Resume);
            left = left - 1;
        }
        action
    }
}

fn is_continue(action: &Action) -> (r: bool)
    ensures
        r == (*action is Continue),
{
    match action {
        Action::Continue => true,
        _ => false,
    }
}

impl<'a> Interpreter<'a> {
    /// The text of a value, as printing shows it; `None` for a number, whose
    /// text is the host's to make, and for a value that names nothing in
    /// the stores.
    pub open spec fn description(&self, value: RuntimeValue<'a>) -> Option<Seq<char>> {
        match value {
            RuntimeValue::Bool(b) => if b {
                Some("true"@)
            } else {
                Some("false"@)
            },
            RuntimeValue::Number(_) => None,
            RuntimeValue::Str(text) => if text < self.strings@.len() {
                Some(self.strings@[text as int]@)
            } else {
                None
            },
            RuntimeValue::BuiltInFunction(function) => if function < self.natives@.len() {
                Some(
                    "<fun "@ + self.natives@[function as int].name@ + "("@ + joined(
                        texts(self.natives@[function as int].args@),
                        self.natives@[function as int].args@.len(),
                    ) + ")>"@,
                )
            } else {
                None
            },
            RuntimeValue::UserFunction(function) => Some(
                "<fun "@ + function.declaration.name.lexeme@ + "("@ + joined(
                    names_of(function.declaration.params@),
                    function.declaration.params@.len(),
                ) + ")>"@,
            ),
            RuntimeValue::Class(class) => if class < self.classes@.len() {
                Some("<class "@ + self.classes@[class as int].name.lexeme@ + ">"@)
            } else {
                None
            },
            RuntimeValue::Instance(instance) => if instance < self.instances@.len()
                && self.instances@[instance as int].class < self.classes@.len() {
                Some(
                    "instance "@
                        + self.classes@[self.instances@[instance as int].class as int].name.lexeme@
                        + "("@ + joined(
                        texts(self.instances@[instance as int].names@),
                        self.instances@[instance as int].names@.len(),
                    ) + ")"@,
                )
            } else {
                None
            },
            RuntimeValue::Nil => Some("nil"@),
        }
    }

    /// Renders a value as printing shows it: `true`, `false` and `nil`, a
    /// string as it is, `<fun name(params)>`, `<class name>`, and
    /// `instance name(fields)` with the fields in the order they were first set.
    pub fn render(&self, value: RuntimeValue<'a>) -> (text: Option<String>)
        ensures
            match self.description(value) {
                Some(expected) => text matches Some(made) && made@ == expected,
                None => text is None,
            },
    {
        match value {
            RuntimeValue::Bool(b) => {
                if b {
                    Some("true".to_owned())
                } else {
                    Some("false".to_owned())
                }
            },
            RuntimeValue::Number(_) => None,
            RuntimeValue::Str(text) => {
                if text < self.strings.len() {
                    Some(self.strings[text].clone())
                } else {
                    None
                }
            },
            RuntimeValue::BuiltInFunction(function) => {
                if function < self.natives.len() {
                    let mut text = framed("<fun ", self.natives[function].name.as_str(), "(");
                    text.append(join(&self.natives[function].args).as_str());
                    text.append(")>");
                    Some(text)
                } else {
                    None
                }
            },
            RuntimeValue::UserFunction(function) => {
                let mut text = framed("<fun ", function.declaration.name.lexeme.as_str(), "(");
                text.append(join_names(&function.declaration.params).as_str());
                text.append(")>");
                Some(text)
            },
            RuntimeValue::Class(class) => {
                if class < self.classes.len() {
                    Some(framed("<class ", self.classes[class].name.lexeme.as_str(), ">"))
                } else {
                    None
                }
            },
            RuntimeValue::Instance(instance) => {
                if instance < self.instances.len() && self.instances[instance].class
                    < self.classes.len() {
                    let class = self.instances[instance].class;
                    let mut text = framed("instance ", self.classes[class].name.lexeme.as_str(), "(");
                    text.append(join(&self.instances[instance].names).as_str());
                    text.append(")");
                    Some(text)
                } else {
                    None
                }
            },
            RuntimeValue::Nil => Some("nil".to_owned()),
        }
    }
}

/// What every value that can be called offers: the number of its
/// parameters, and the call.
pub trait CallableValue<'a> {
    /// The callable as the interpreter tells the kinds apart.
    spec fn kind(&self) -> Callable<'a>;

    /// The number of arguments that the callable takes; `None` for one that
    /// names nothing in the interpreter's stores.
    fn arity(&self, interpreter: &Interpreter<'a>) -> (count: Option<usize>)
        ensures
            count == interpreter@.arity(self.kind()),
    ;

    /// Calls the callable with the topmost `count` operands as arguments;
    /// the callee lies under them. The number of arguments is not checked here.
    fn call(&self, interpreter: &mut Interpreter<'a>, count: usize) -> (action: Action<'a>)
        requires
            old(interpreter).wf(),
            old(interpreter)@.operands.len() >= count + 1,
        ensures
            final(interpreter).wf(),
            (final(interpreter)@, action) == old(interpreter)@.call(self.kind(), count),
    ;
}

impl<'a> CallableValue<'a> for UserFunction<'a> {
    open spec fn kind(&self) -> Callable<'a> {
        Callable::Function(*self)
    }

    fn arity(&self, interpreter: &Interpreter<'a>) -> (count: Option<usize>) {
        Some(self.declaration.params.len())
    }

    fn call(&self, interpreter: &mut Interpreter<'a>, count: usize) -> (action: Action<'a>) {
        interpreter.enter(*self, count)
    }
}

impl<'a> CallableValue<'a> for Callable<'a> {
    open spec fn kind(&self) -> Callable<'a> {
        *self
    }

    fn arity(&self, interpreter: &Interpreter<'a>) -> (count: Option<usize>) {
        match self {
            Callable::BuiltIn(function) => {
                if *function < interpreter.natives.len() {
                    Some(interpreter.natives[*function].arity())
                } else {
                    None
                }
            },
            Callable::Function(function) => Some(function.arity()),
            Callable::Class(class) => {
                if *class < interpreter.classes.len() {
                    match ClassDefinition::find_method(&interpreter.classes, *class, "init") {
                        Some(initializer) => Some(initializer.arity()),
                        None => Some(0),
                    }
                } else {
                    None
                }
            },
        }
    }

    fn call(&self, interpreter: &mut Interpreter<'a>, count: usize) -> (action: Action<'a>) {
        match self {
            Callable::BuiltIn(function) => {
                let len = interpreter.operands.len();
                interpreter.push_task(Task::Receive(count + 1));
                Action::CallBuiltIn { function: *function, arguments: count }
            },
            Callable::Function(function) => function.call(interpreter, count),
            Callable::Class(class) => {
                let height = interpreter.operands.len() - count - 1;
                let this = interpreter.instances.len();
                interpreter.instances.push(ClassInstance::new(*class));
                assert(interpreter@ =~~= (Machine {
                    instances: old(interpreter)@.instances.push(
                        InstanceModel {
                            class: *class,
                            fields: Map::<Seq<char>, RuntimeValue<'a>>::empty(),
                            names: Seq::<Seq<char>>::empty(),
                        },
                    ),
                    ..old(interpreter)@
                }));
                match ClassDefinition::find_method(&interpreter.classes, *class, "init") {
                    Some(initializer) => {
                        proof {
                            lemma_found_method_is_stored(interpreter@.classes, *class, "init"@);
                        }
                        let bound = initializer.bind(this, &mut interpreter.environment);
                        interpreter.push_task(Task::Replace(RuntimeValue::Instance(this)));
                        bound.call(interpreter, count)
                    },
                    None => {
                        interpreter.cut(height);
                        interpreter.push_value(RuntimeValue::Instance(this));
                        Action::Continue
                    },
                }
            },
        }
    }
}

/// Every function of a method table closes over the scope it was built with.
pub proof fn lemma_method_table_closures(methods: &Vec<FunctionStmt>, count: nat, closure: usize)
    ensures
        forall|name: Seq<char>| #[trigger]
            method_table(methods, count, closure).contains_key(name) ==> method_table(
                methods,
                count,
                closure,
            )[name].closure == closure,
    decreases count,
{
    if count > 0 && count <= methods@.len() {
        lemma_method_table_closures(methods, (count - 1) as nat, closure);
    }
}

/// The key under which the distance of an expression is recorded: the
/// position of its name or keyword token.
pub open spec fn expression_key(expr: &Expr) -> Option<usize> {
    match expr {
        Expr::Variable { name } => Some(name.scanner_index),
        Expr::Assign { name, .. } => Some(name.scanner_index),
        Expr::This { keyword } => Some(keyword.scanner_index),
        Expr::Super { keyword, .. } => Some(keyword.scanner_index),
        _ => None,
    }
}

} // verus!
