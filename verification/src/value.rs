use vstd::prelude::*;
use vstd::hash_map::StringHashMap;
use crate::ast::FunctionStmt;
use crate::environment::{Environment, Scope};
use crate::token::Token;

verus! {

/// A function of the program together with the scope it was defined in.
#[derive(Debug, Clone, Copy)]
pub struct UserFunction<'a> {
    pub declaration: &'a FunctionStmt,
    pub closure: usize,
}

/// A function that the host provides: its name and the names of its parameters.
#[derive(Debug)]
pub struct BuiltInFunction {
    pub name: String,
    pub args: Vec<String>,
}

/// A value of the running program. Strings, host functions, classes and
/// instances are named by their position in the interpreter's stores; a
/// number is carried in the 64-bit encoding of the host that computes with it.
#[derive(Debug, Clone, Copy)]
pub enum RuntimeValue<'a> {
    Bool(bool),
    Number(u64),
    Str(usize),
    BuiltInFunction(usize),
    UserFunction(UserFunction<'a>),
    Class(usize),
    Instance(usize),
    Nil,
}

/// The three kinds of value that can be called.
#[derive(Debug, Clone, Copy)]
pub enum Callable<'a> {
    BuiltIn(usize),
    Function(UserFunction<'a>),
    Class(usize),
}

/// A class: its name, the class it inherits from, and its own methods.
pub struct ClassDefinition<'a> {
    pub name: &'a Token,
    pub superclass: Option<usize>,
    pub methods: StringHashMap<UserFunction<'a>>,
}

/// A class as mathematics.
pub ghost struct ClassModel<'a> {
    pub name: Token,
    pub superclass: Option<usize>,
    pub methods: Map<Seq<char>, UserFunction<'a>>,
}

impl<'a> View for ClassDefinition<'a> {
    type V = ClassModel<'a>;

    open spec fn view(&self) -> ClassModel<'a> {
        ClassModel { name: *self.name, superclass: self.superclass, methods: self.methods@ }
    }
}

/// An object: its class, its fields, and the names of the fields in the
/// order in which they were first set.
pub struct ClassInstance<'a> {
    pub class: usize,
    pub fields: StringHashMap<RuntimeValue<'a>>,
    pub names: Vec<String>,
}

/// An instance as mathematics.
pub ghost struct InstanceModel<'a> {
    pub class: usize,
    pub fields: Map<Seq<char>, RuntimeValue<'a>>,
    pub names: Seq<Seq<char>>,
}

impl<'a> View for ClassInstance<'a> {
    type V = InstanceModel<'a>;

    open spec fn view(&self) -> InstanceModel<'a> {
        InstanceModel { class: self.class, fields: self.fields@, names: texts(self.names@) }
    }
}

/// The classes of a run as mathematics.
pub open spec fn class_models<'a>(classes: Seq<ClassDefinition<'a>>) -> Seq<ClassModel<'a>> {
    Seq::new(classes.len(), |i: int| classes[i]@)
}

/// The instances of a run as mathematics.
pub open spec fn instance_models<'a>(instances: Seq<ClassInstance<'a>>) -> Seq<InstanceModel<'a>> {
    Seq::new(instances.len(), |i: int| instances[i]@)
}

/// A list of strings as mathematics.
pub open spec fn texts(strings: Seq<String>) -> Seq<Seq<char>> {
    Seq::new(strings.len(), |i: int| strings[i]@)
}

/// Every method of every class was defined in one of the first `scopes` scopes.
pub open spec fn closures_within(classes: Seq<ClassModel>, scopes: nat) -> bool {
    forall|i: int, name: Seq<char>|
        0 <= i < classes.len() && (#[trigger] classes[i].methods.contains_key(name))
            ==> classes[i].methods[name].closure < scopes
}

/// The method `name` of the class at `class`: its own, or else the one its
/// nearest ancestor has.
pub open spec fn classes_find_method<'a>(
    classes: Seq<ClassModel<'a>>,
    class: usize,
    name: Seq<char>,
) -> Option<UserFunction<'a>>
    decreases class,
{
    if class >= classes.len() {
        None
    } else if classes[class as int].methods.contains_key(name) {
        Some(classes[class as int].methods[name])
    } else {
        match classes[class as int].superclass {
            Some(p) => if p < class {
                classes_find_method(classes, p, name)
            } else {
                None
            },
            None => None,
        }
    }
}

/// The scope that a bound method captures: inside the method's own closure,
/// with `this` standing for the instance.
pub open spec fn bound_scope<'a>(function: UserFunction<'a>, instance: usize) -> Scope<'a> {
    Scope {
        values: Map::<Seq<char>, RuntimeValue<'a>>::empty().insert(
            "this"@,
            RuntimeValue::Instance(instance),
        ),
        enclosing: Some(function.closure),
    }
}

/// What reading the property `name` of an instance gives, and the scopes
/// afterwards: a field wins over a method, and a method comes bound to the
/// instance in a scope made for this one access.
pub open spec fn instance_get<'a>(
    instance: InstanceModel<'a>,
    this: usize,
    name: Seq<char>,
    classes: Seq<ClassModel<'a>>,
    scopes: Seq<Scope<'a>>,
) -> (Option<RuntimeValue<'a>>, Seq<Scope<'a>>) {
    if instance.fields.contains_key(name) {
        (Some(instance.fields[name]), scopes)
    } else {
        match classes_find_method(classes, instance.class, name) {
            Some(method) => (
                Some(
                    RuntimeValue::UserFunction(
                        UserFunction { declaration: method.declaration, closure: scopes.len() as usize },
                    ),
                ),
                scopes.push(bound_scope(method, this)),
            ),
            None => (None, scopes),
        }
    }
}

/// The instance after `name` is set to `value`.
pub open spec fn instance_set<'a>(
    instance: InstanceModel<'a>,
    name: Seq<char>,
    value: RuntimeValue<'a>,
) -> InstanceModel<'a> {
    InstanceModel {
        class: instance.class,
        fields: instance.fields.insert(name, value),
        names: if instance.fields.contains_key(name) {
            instance.names
        } else {
            instance.names.push(name)
        },
    }
}

impl BuiltInFunction {
    /// A host function called `name` that takes the parameters `args`.
    pub fn new(name: &str, args: Vec<&str>) -> (function: Self)
        ensures
            function.name@ == name@,
            function.args@.len() == args@.len(),
            forall|i: int| 0 <= i < args@.len() ==> (#[trigger] function.args@[i])@ == args@[i]@,
    {
        let mut owned: Vec<String> = Vec::new();
        let mut i: usize = 0;
        while i < args.len()
            invariant
                i <= args@.len(),
                owned@.len() == i,
                forall|j: int| 0 <= j < i ==> (#[trigger] owned@[j])@ == args@[j]@,
            decreases args@.len() - i,
        {
            owned.push(args[i].to_owned());
            i = i + 1;
        }
        BuiltInFunction { name: name.to_owned(), args: owned }
    }

    /// The number of parameters.
    pub fn arity(&self) -> (count: usize)
        ensures
            count == self.args@.len(),
    {
        self.args.len()
    }
}

impl<'a> UserFunction<'a> {
    /// The function of a declaration, closed over a scope.
    pub fn new(fun: &'a FunctionStmt, closure: usize) -> (function: Self)
        ensures
            function == (UserFunction { declaration: fun, closure }),
    {
        UserFunction { declaration: fun, closure }
    }

    /// The same function in a new scope, made inside the function's closure,
    /// in which `this` is the instance at `instance`.
    pub fn bind(&self, instance: usize, environment: &mut Environment<'a>) -> (bound: UserFunction<'a>)
        requires
            old(environment).wf(),
            self.closure < old(environment)@.len(),
        ensures
            final(environment).wf(),
            final(environment)@ == old(environment)@.push(bound_scope(*self, instance)),
            bound == (UserFunction {
                declaration: self.declaration,
                closure: old(environment)@.len() as usize,
            }),
    {
        let scope = environment.child(self.closure);
        environment.define(scope, "this", RuntimeValue::Instance(instance));
        assert(environment@ =~= old(environment)@.push(bound_scope(*self, instance)));
        UserFunction { declaration: self.declaration, closure: scope }
    }

    /// The number of parameters.
    pub fn arity(&self) -> (count: usize)
        ensures
            count == self.declaration.params@.len(),
    {
        self.declaration.params.len()
    }

    /// Two function values are the same when they come from one declaration
    /// and captured one scope.
    pub open spec fn same(self, other: UserFunction<'a>) -> bool {
        self.declaration.name.same(other.declaration.name) && self.closure == other.closure
    }
}

impl<'a> ClassDefinition<'a> {
    /// A class with its name, its superclass and its own methods.
    pub fn new(
        name: &'a Token,
        superclass: Option<usize>,
        methods: StringHashMap<UserFunction<'a>>,
    ) -> (class: Self)
        ensures
            class@ == (ClassModel { name: *name, superclass, methods: methods@ }),
    {
        ClassDefinition { name, superclass, methods }
    }

    /// Looks `name` up among the own methods of the class at `class`, then
    /// along its superclass chain.
    pub fn find_method(classes: &Vec<ClassDefinition<'a>>, class: usize, name: &str) -> (method: Option<
        UserFunction<'a>,
    >)
        ensures
            method == classes_find_method(class_models(classes@), class, name@),
    {
        let mut current = class;
        loop
            invariant
                classes_find_method(class_models(classes@), class, name@) == classes_find_method(
                    class_models(classes@),
                    current,
                    name@,
                ),
            decreases current,
        {
            if current >= classes.len() {
                return None;
            }
            match classes[current].methods.get(name) {
                Some(found) => {
                    return Some(*found);
                },
                None => {},
            }
            match classes[current].superclass {
                Some(p) => {
                    if p < current {
                        current = p;
                    } else {
                        return None;
                    }
                },
                None => {
                    return None;
                },
            }
        }
    }
}

impl<'a> ClassInstance<'a> {
    /// A new instance of the class at `class`, without fields.
    pub fn new(class: usize) -> (instance: Self)
        ensures
            instance@ == (InstanceModel {
                class,
                fields: Map::<Seq<char>, RuntimeValue<'a>>::empty(),
                names: Seq::<Seq<char>>::empty(),
            }),
    {
        let instance = ClassInstance { class, fields: StringHashMap::new(), names: Vec::new() };
        assert(texts(instance.names@) =~= Seq::<Seq<char>>::empty());
        instance
    }

    /// Reads the property that `name` names: the field of that name, or else
    /// the class's method of that name, bound to this instance (`this` is the
    /// instance's own position). `None` where there is neither.
    pub fn get(
        &self,
        this: usize,
        name: &Token,
        classes: &Vec<ClassDefinition<'a>>,
        environment: &mut Environment<'a>,
    ) -> (value: Option<RuntimeValue<'a>>)
        requires
            old(environment).wf(),
            closures_within(class_models(classes@), old(environment)@.len()),
        ensures
            final(environment).wf(),
            (value, final(environment)@) == instance_get(
                self@,
                this,
                name.lexeme@,
                class_models(classes@),
                old(environment)@,
            ),
    {
        match self.fields.get(name.lexeme.as_str()) {
            Some(field) => Some(*field),
            None => {
                match ClassDefinition::find_method(classes, self.class, name.lexeme.as_str()) {
                    Some(method) => {
                        proof {
                            let models = class_models(classes@);
                            lemma_found_method_is_stored(models, self.class, name.lexeme@);
                        }
                        let bound = method.bind(this, environment);
                        Some(RuntimeValue::UserFunction(bound))
                    },
                    None => None,
                }
            },
        }
    }

    /// Sets the field `name`, whether or not the class has a method of that name.
    pub fn set(&mut self, name: &Token, value: RuntimeValue<'a>)
        ensures
            final(self)@ == instance_set(old(self)@, name.lexeme@, value),
    {
        if !self.fields.contains_key(name.lexeme.as_str()) {
            self.names.push(name.lexeme.clone());
            assert(texts(self.names@) =~= texts(old(self).names@).push(name.lexeme@));
        }
        self.fields.insert(name.lexeme.clone(), value);
    }
}

/// A method that the lookup finds is a method of some class of the table.
pub proof fn lemma_found_method_is_stored<'a>(
    classes: Seq<ClassModel<'a>>,
    class: usize,
    name: Seq<char>,
)
    ensures
        classes_find_method(classes, class, name) matches Some(method) ==> exists|i: int|
            0 <= i < classes.len() && #[trigger] classes[i].methods.contains_key(name)
                && classes[i].methods[name] == method,
    decreases class,
{
    if class < classes.len() && !classes[class as int].methods.contains_key(name) {
        match classes[class as int].superclass {
            Some(p) => {
                if p < class {
                    lemma_found_method_is_stored(classes, p, name);
                }
            },
            None => {},
        }
    }
}

/// Whether two values are equal: values of different kinds never are;
/// strings are equal when their texts are; functions when they come from one
/// declaration and captured one scope; host functions, classes and instances
/// when they are the same one. Numbers are compared here by their encoding.
pub open spec fn values_equal(left: RuntimeValue, right: RuntimeValue, strings: Seq<Seq<char>>) -> bool {
    match (left, right) {
        (RuntimeValue::Bool(l), RuntimeValue::Bool(r)) => l == r,
        (RuntimeValue::Number(l), RuntimeValue::Number(r)) => l == r,
        (RuntimeValue::Str(l), RuntimeValue::Str(r)) => if l < strings.len() && r < strings.len() {
            strings[l as int] == strings[r as int]
        } else {
            l == r
        },
        (RuntimeValue::BuiltInFunction(l), RuntimeValue::BuiltInFunction(r)) => l == r,
        (RuntimeValue::UserFunction(l), RuntimeValue::UserFunction(r)) => l.same(r),
        (RuntimeValue::Class(l), RuntimeValue::Class(r)) => l == r,
        (RuntimeValue::Instance(l), RuntimeValue::Instance(r)) => l == r,
        (RuntimeValue::Nil, RuntimeValue::Nil) => true,
        _ => false,
    }
}

impl<'a> RuntimeValue<'a> {
    /// Whether a value counts as true in a condition.
    pub open spec fn truthy(self) -> bool {
        match self {
            RuntimeValue::Bool(v) => v,
            RuntimeValue::Nil => false,
            _ => true,
        }
    }

    /// `nil` and `false` are falsey, every other value is truthy.
    pub fn is_truthy(&self) -> (r: bool)
        ensures
            r == self.truthy(),
    {
        match self {
            RuntimeValue::Bool(v) => *v,
            RuntimeValue::Nil => false,
            _ => true,
        }
    }

    /// Equality of two values; `strings` holds the texts that string values name.
    pub fn equals(&self, other: &RuntimeValue<'a>, strings: &Vec<String>) -> (r: bool)
        ensures
            r == values_equal(*self, *other, texts(strings@)),
    {
        match (self, other) {
            (RuntimeValue::Bool(l), RuntimeValue::Bool(r)) => *l == *r,
            (RuntimeValue::Number(l), RuntimeValue::Number(r)) => *l == *r,
            (RuntimeValue::Str(l), RuntimeValue::Str(r)) => {
                if *l < strings.len() && *r < strings.len() {
                    strings[*l] == strings[*r]
                } else {
                    *l == *r
                }
            },
            (RuntimeValue::BuiltInFunction(l), RuntimeValue::BuiltInFunction(r)) => *l == *r,
            (RuntimeValue::UserFunction(l), RuntimeValue::UserFunction(r)) => {
                l.declaration.name.is_same(&r.declaration.name) && l.closure == r.closure
            },
            (RuntimeValue::Class(l), RuntimeValue::Class(r)) => *l == *r,
            (RuntimeValue::Instance(l), RuntimeValue::Instance(r)) => *l == *r,
            (RuntimeValue::Nil, RuntimeValue::Nil) => true,
            _ => false,
        }
    }

    /// The value as something that can be called, if it is.
    pub open spec fn callable(self) -> Option<Callable<'a>> {
        match self {
            RuntimeValue::BuiltInFunction(f) => Some(Callable::BuiltIn(f)),
            RuntimeValue::UserFunction(f) => Some(Callable::Function(f)),
            RuntimeValue::Class(c) => Some(Callable::Class(c)),
            _ => None,
        }
    }

    /// The value as something that can be called: a host function, a
    /// function of the program, or a class; `None` for every other value.
    pub fn as_callable(&self) -> (r: Option<Callable<'a>>)
        ensures
            r == self.callable(),
    {
        match self {
            RuntimeValue::BuiltInFunction(f) => Some(Callable::BuiltIn(*f)),
            RuntimeValue::UserFunction(f) => Some(Callable::Function(*f)),
            RuntimeValue::Class(c) => Some(Callable::Class(*c)),
            _ => None,
        }
    }
}

/// A method that a class has itself is the one that is found for it,
/// whatever its superclasses have under that name.
pub proof fn law_override_wins<'a>(classes: Seq<ClassModel<'a>>, class: usize, name: Seq<char>)
    requires
        class < classes.len(),
        classes[class as int].methods.contains_key(name),
    ensures
        classes_find_method(classes, class, name) == Some(classes[class as int].methods[name]),
{
}

/// Reading a method through an instance gives the method of the
/// instance's own class where that class has one, bound to the instance.
pub proof fn law_instance_dispatch<'a>(
    instance: InstanceModel<'a>,
    this: usize,
    name: Seq<char>,
    classes: Seq<ClassModel<'a>>,
    scopes: Seq<Scope<'a>>,
)
    requires
        instance.class < classes.len(),
        classes[instance.class as int].methods.contains_key(name),
        !instance.fields.contains_key(name),
    ensures
        instance_get(instance, this, name, classes, scopes).0 == Some(
            RuntimeValue::UserFunction(
                UserFunction {
                    declaration: classes[instance.class as int].methods[name].declaration,
                    closure: scopes.len() as usize,
                },
            ),
        ),
        instance_get(instance, this, name, classes, scopes).1.last().values["this"@]
            == RuntimeValue::Instance(this),
{
}

/// After a field is set, reading that property gives the value that was
/// set, also where the class has a method of the same name.
pub proof fn law_field_shadows_method<'a>(
    instance: InstanceModel<'a>,
    this: usize,
    name: Seq<char>,
    value: RuntimeValue<'a>,
    classes: Seq<ClassModel<'a>>,
    scopes: Seq<Scope<'a>>,
)
    ensures
        instance_get(instance_set(instance, name, value), this, name, classes, scopes) == (
            Some(value),
            scopes,
        ),
{
}

/// Values of different kinds are never equal, and every value is equal to itself.
pub proof fn law_equality_by_kind(left: RuntimeValue, right: RuntimeValue, strings: Seq<Seq<char>>)
    ensures
        values_equal(left, left, strings),
        values_equal(left, right, strings) == values_equal(right, left, strings),
        values_equal(left, right, strings) ==> (left is Bool <==> right is Bool) && (left is Number
            <==> right is Number) && (left is Str <==> right is Str) && (left is BuiltInFunction
            <==> right is BuiltInFunction) && (left is UserFunction <==> right is UserFunction) && (
        left is Class <==> right is Class) && (left is Instance <==> right is Instance) && (left is Nil
            <==> right is Nil),
{
}

} // verus!
