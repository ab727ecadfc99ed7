use vstd::prelude::*;
use vstd::hash_map::StringHashMap;
use crate::value::RuntimeValue;

verus! {

/// One scope: its own bindings and the scope around it.
pub struct Frame<'a> {
    pub values: StringHashMap<RuntimeValue<'a>>,
    pub enclosing: Option<usize>,
}

/// What a frame holds, as a mathematical map.
pub ghost struct Scope<'a> {
    pub values: Map<Seq<char>, RuntimeValue<'a>>,
    pub enclosing: Option<usize>,
}

impl<'a> View for Frame<'a> {
    type V = Scope<'a>;

    open spec fn view(&self) -> Scope<'a> {
        Scope { values: self.values@, enclosing: self.enclosing }
    }
}

/// Every scope but a root lies inside a scope that was made before it.
pub open spec fn scopes_wf(scopes: Seq<Scope>) -> bool {
    forall|i: int|
        0 <= i < scopes.len() ==> match (#[trigger] scopes[i]).enclosing {
            Some(p) => p < i,
            None => true,
        }
}

/// The scopes after `name` is bound to `value` in `scope` itself.
pub open spec fn scopes_define<'a>(
    scopes: Seq<Scope<'a>>,
    scope: usize,
    name: Seq<char>,
    value: RuntimeValue<'a>,
) -> Seq<Scope<'a>> {
    scopes.update(
        scope as int,
        Scope {
            values: scopes[scope as int].values.insert(name, value),
            enclosing: scopes[scope as int].enclosing,
        },
    )
}

/// The scope reached from `scope` by going outwards `distance` times.
pub open spec fn scopes_ancestor(scopes: Seq<Scope>, scope: usize, distance: nat) -> Option<usize>
    decreases distance,
{
    if scope >= scopes.len() {
        None
    } else if distance == 0 {
        Some(scope)
    } else {
        match scopes[scope as int].enclosing {
            Some(p) => scopes_ancestor(scopes, p, (distance - 1) as nat),
            None => None,
        }
    }
}

/// The innermost scope, from `scope` outwards, that binds `name`.
pub open spec fn scopes_owner(scopes: Seq<Scope>, scope: usize, name: Seq<char>) -> Option<usize>
    decreases scope,
{
    if scope >= scopes.len() {
        None
    } else if scopes[scope as int].values.contains_key(name) {
        Some(scope)
    } else {
        match scopes[scope as int].enclosing {
            Some(p) => if p < scope {
                scopes_owner(scopes, p, name)
            } else {
                None
            },
            None => None,
        }
    }
}

/// What `name` means in `scope`: the binding of the innermost scope that has one.
pub open spec fn scopes_get<'a>(scopes: Seq<Scope<'a>>, scope: usize, name: Seq<char>) -> Option<
    RuntimeValue<'a>,
> {
    match scopes_owner(scopes, scope, name) {
        Some(owner) => Some(scopes[owner as int].values[name]),
        None => None,
    }
}

/// What the scope `distance` steps outside `scope` itself binds `name` to.
pub open spec fn scopes_get_at<'a>(
    scopes: Seq<Scope<'a>>,
    scope: usize,
    distance: nat,
    name: Seq<char>,
) -> Option<RuntimeValue<'a>> {
    match scopes_ancestor(scopes, scope, distance) {
        Some(target) => if scopes[target as int].values.contains_key(name) {
            Some(scopes[target as int].values[name])
        } else {
            None
        },
        None => None,
    }
}

/// The scopes after an assignment by name: the innermost binding of `name`
/// changes, and nothing changes where no scope binds it.
pub open spec fn scopes_assign<'a>(
    scopes: Seq<Scope<'a>>,
    scope: usize,
    name: Seq<char>,
    value: RuntimeValue<'a>,
) -> Seq<Scope<'a>> {
    match scopes_owner(scopes, scope, name) {
        Some(owner) => scopes_define(scopes, owner, name, value),
        None => scopes,
    }
}

/// The scopes after an assignment by distance.
pub open spec fn scopes_assign_at<'a>(
    scopes: Seq<Scope<'a>>,
    scope: usize,
    distance: nat,
    name: Seq<char>,
    value: RuntimeValue<'a>,
) -> Seq<Scope<'a>> {
    match scopes_ancestor(scopes, scope, distance) {
        Some(target) => scopes_define(scopes, target, name, value),
        None => scopes,
    }
}

/// All scopes of a run. A scope is named by its position; scopes are only
/// ever added, so the scope a closure captured stays valid for the whole run.
pub struct Environment<'a> {
    pub frames: Vec<Frame<'a>>,
}

impl<'a> View for Environment<'a> {
    type V = Seq<Scope<'a>>;

    open spec fn view(&self) -> Seq<Scope<'a>> {
        Seq::new(self.frames@.len(), |i: int| self.frames@[i]@)
    }
}

impl<'a> Environment<'a> {
    /// Whether the scopes of the store are well-formed.
    pub open spec fn wf(&self) -> bool {
        scopes_wf(self@)
    }

    /// A store with one root scope, scope 0, that binds nothing.
    pub fn new() -> (environment: Self)
        ensures
            environment.wf(),
            environment@ == seq![Scope { values: Map::<Seq<char>, RuntimeValue<'a>>::empty(), enclosing: None }],
    {
        let mut frames = Vec::new();
        frames.push(Frame { values: StringHashMap::new(), enclosing: None });
        let environment = Environment { frames };
        assert(environment@ =~= seq![
            Scope { values: Map::<Seq<char>, RuntimeValue<'a>>::empty(), enclosing: None },
        ]);
        environment
    }

    /// Adds an empty scope inside `parent` and returns its position.
    pub fn child(&mut self, parent: usize) -> (scope: usize)
        requires
            old(self).wf(),
            parent < old(self)@.len(),
        ensures
            final(self).wf(),
            scope == old(self)@.len(),
            final(self)@ == old(self)@.push(
                Scope { values: Map::<Seq<char>, RuntimeValue<'a>>::empty(), enclosing: Some(parent) },
            ),
    {
        let scope = self.frames.len();
        self.frames.push(Frame { values: StringHashMap::new(), enclosing: Some(parent) });
        assert(self@ =~= old(self)@.push(
            Scope { values: Map::<Seq<char>, RuntimeValue<'a>>::empty(), enclosing: Some(parent) },
        ));
        scope
    }

    /// The scope around `scope`, if it has one.
    pub fn enclosing(&self, scope: usize) -> (outer: Option<usize>)
        requires
            scope < self@.len(),
        ensures
            outer == self@[scope as int].enclosing,
    {
        self.frames[scope].enclosing
    }

    /// Binds `name` in `scope` itself, replacing a binding it already has.
    pub fn define(&mut self, scope: usize, name: &str, value: RuntimeValue<'a>)
        requires
            old(self).wf(),
            scope < old(self)@.len(),
        ensures
            final(self).wf(),
            final(self)@ == scopes_define(old(self)@, scope, name@, value),
    {
        let key = name.to_owned();
        self.frames[scope].values.insert(key, value);
        assert(self@ =~= scopes_define(old(self)@, scope, name@, value));
    }

    /// The scope `distance` steps outside `scope`, or `None` where the chain ends first.
    pub fn ancestor(&self, scope: usize, distance: usize) -> (target: Option<usize>)
        requires
            scope < self@.len(),
        ensures
            target == scopes_ancestor(self@, scope, distance as nat),
            target matches Some(t) ==> t < self@.len(),
    {
        let mut current = scope;
        let mut left = distance;
        while left > 0
            invariant
                current < self@.len(),
                scopes_ancestor(self@, scope, distance as nat) == scopes_ancestor(
                    self@,
                    current,
                    left as nat,
                ),
            decreases left,
        {
            match self.frames[current].enclosing {
                Some(p) => {
                    if p >= self.frames.len() {
                        assert(scopes_ancestor(self@, p, (left - 1) as nat).is_none());
                        return None;
                    }
                    current = p;
                    left = left - 1;
                },
                None => {
                    return None;
                },
            }
        }
        Some(current)
    }

    /// The innermost scope, from `scope` outwards, that binds `name`.
    pub fn owner(&self, scope: usize, name: &str) -> (found: Option<usize>)
        requires
            self.wf(),
            scope < self@.len(),
        ensures
            found == scopes_owner(self@, scope, name@),
            found matches Some(o) ==> o < self@.len() && self@[o as int].values.contains_key(name@),
    {
        let mut current = scope;
        loop
            invariant
                self.wf(),
                current < self@.len(),
                scopes_owner(self@, scope, name@) == scopes_owner(self@, current, name@),
            decreases current,
        {
            if self.frames[current].values.contains_key(name) {
                return Some(current);
            }
            match self.frames[current].enclosing {
                Some(p) => {
                    assert(self@[current as int].enclosing == Some(p));
                    current = p;
                },
                None => {
                    return None;
                },
            }
        }
    }

    /// Reads `name` from the innermost scope that binds it, searching from
    /// `scope` outwards; `None` where no scope binds it.
    pub fn get(&self, scope: usize, name: &str) -> (value: Option<RuntimeValue<'a>>)
        requires
            self.wf(),
            scope < self@.len(),
        ensures
            value == scopes_get(self@, scope, name@),
    {
        match self.owner(scope, name) {
            Some(owner) => {
                match self.frames[owner].values.get(name) {
                    Some(v) => Some(*v),
                    None => None,
                }
            },
            None => None,
        }
    }

    /// Reads `name` from exactly the scope `distance` steps outside `scope`;
    /// `None` where that scope does not exist or does not bind the name.
    pub fn get_at(&self, scope: usize, distance: usize, name: &str) -> (value: Option<
        RuntimeValue<'a>,
    >)
        requires
            scope < self@.len(),
        ensures
            value == scopes_get_at(self@, scope, distance as nat, name@),
    {
        match self.ancestor(scope, distance) {
            Some(target) => {
                match self.frames[target].values.get(name) {
                    Some(v) => Some(*v),
                    None => None,
                }
            },
            None => None,
        }
    }

    /// Assigns to the innermost binding of `name`, searching from `scope`
    /// outwards, and returns the value it had. Where no scope binds the name
    /// nothing changes and the result is `None`.
    pub fn assign(&mut self, scope: usize, name: &str, value: RuntimeValue<'a>) -> (previous: Option<
        RuntimeValue<'a>,
    >)
        requires
            old(self).wf(),
            scope < old(self)@.len(),
        ensures
            final(self).wf(),
            previous == scopes_get(old(self)@, scope, name@),
            final(self)@ == scopes_assign(old(self)@, scope, name@, value),
    {
        match self.owner(scope, name) {
            Some(owner) => {
                let previous = match self.frames[owner].values.get(name) {
                    Some(v) => Some(*v),
                    None => None,
                };
                self.define(owner, name, value);
                previous
            },
            None => None,
        }
    }

    /// Writes `name` in exactly the scope `distance` steps outside `scope`
    /// and returns the value that scope had for it. Where that scope does not
    /// exist nothing changes and the result is `None`.
    pub fn assign_at(
        &mut self,
        scope: usize,
        distance: usize,
        name: &str,
        value: RuntimeValue<'a>,
    ) -> (previous: Option<RuntimeValue<'a>>)
        requires
            old(self).wf(),
            scope < old(self)@.len(),
        ensures
            final(self).wf(),
            previous == scopes_get_at(old(self)@, scope, distance as nat, name@),
            final(self)@ == scopes_assign_at(old(self)@, scope, distance as nat, name@, value),
    {
        match self.ancestor(scope, distance) {
            Some(target) => {
                let previous = match self.frames[target].values.get(name) {
                    Some(v) => Some(*v),
                    None => None,
                };
                self.define(target, name, value);
                previous
            },
            None => None,
        }
    }
}

/// Rebinding a name in a scope that already binds it moves no name's owner.
pub proof fn lemma_owner_after_rebinding<'a>(
    scopes: Seq<Scope<'a>>,
    target: usize,
    name: Seq<char>,
    value: RuntimeValue<'a>,
    scope: usize,
    other: Seq<char>,
)
    requires
        target < scopes.len(),
        scopes[target as int].values.contains_key(name),
    ensures
        scopes_owner(scopes_define(scopes, target, name, value), scope, other) == scopes_owner(
            scopes,
            scope,
            other,
        ),
    decreases scope,
{
    let after = scopes_define(scopes, target, name, value);
    if scope < scopes.len() {
        assert(after[scope as int].values.contains_key(other) == scopes[scope as int].values.contains_key(
            other,
        ));
        assert(after[scope as int].enclosing == scopes[scope as int].enclosing);
        match scopes[scope as int].enclosing {
            Some(p) => {
                if p < scope {
                    lemma_owner_after_rebinding(scopes, target, name, value, p, other);
                }
            },
            None => {},
        }
    }
}

/// A name that was just defined in a scope reads back, from that scope, as
/// the value it was given.
pub proof fn law_define_then_get<'a>(
    scopes: Seq<Scope<'a>>,
    scope: usize,
    name: Seq<char>,
    value: RuntimeValue<'a>,
)
    requires
        scope < scopes.len(),
    ensures
        scopes_get(scopes_define(scopes, scope, name, value), scope, name) == Some(value),
        scopes_get_at(scopes_define(scopes, scope, name, value), scope, 0, name) == Some(value),
{
}

/// An assignment by name to a bound variable reads back as the assigned
/// value, whatever kind of value the variable held before.
pub proof fn law_assign_then_get<'a>(
    scopes: Seq<Scope<'a>>,
    scope: usize,
    name: Seq<char>,
    value: RuntimeValue<'a>,
)
    requires
        scope < scopes.len(),
        scopes_get(scopes, scope, name).is_some(),
    ensures
        scopes_get(scopes_assign(scopes, scope, name, value), scope, name) == Some(value),
{
    let owner = scopes_owner(scopes, scope, name).unwrap();
    lemma_owner_in_range(scopes, scope, name);
    lemma_owner_after_rebinding(scopes, owner, name, value, scope, name);
}

/// An assignment by name leaves every other name as it was.
pub proof fn law_assign_keeps_other_names<'a>(
    scopes: Seq<Scope<'a>>,
    scope: usize,
    name: Seq<char>,
    value: RuntimeValue<'a>,
    other: Seq<char>,
)
    requires
        scope < scopes.len(),
        other != name,
    ensures
        scopes_get(scopes_assign(scopes, scope, name, value), scope, other) == scopes_get(
            scopes,
            scope,
            other,
        ),
{
    match scopes_owner(scopes, scope, name) {
        Some(owner) => {
            lemma_owner_in_range(scopes, scope, name);
            lemma_owner_after_rebinding(scopes, owner, name, value, scope, other);
            lemma_owner_in_range(scopes, scope, other);
        },
        None => {},
    }
}

/// A global that is redefined by assignment holds the new value, also where
/// the new value is of another kind than the one it was declared with.
pub proof fn law_global_redefinition<'a>(
    scopes: Seq<Scope<'a>>,
    globals: usize,
    name: Seq<char>,
    initial: RuntimeValue<'a>,
    replacement: RuntimeValue<'a>,
)
    requires
        globals < scopes.len(),
    ensures
        scopes_get(
            scopes_assign(scopes_define(scopes, globals, name, initial), globals, name, replacement),
            globals,
            name,
        ) == Some(replacement),
{
    let declared = scopes_define(scopes, globals, name, initial);
    law_define_then_get(scopes, globals, name, initial);
    law_assign_then_get(declared, globals, name, replacement);
}

/// The owner of a name is a scope of the store and binds the name.
pub proof fn lemma_owner_in_range(scopes: Seq<Scope>, scope: usize, name: Seq<char>)
    ensures
        scopes_owner(scopes, scope, name) matches Some(o) ==> o < scopes.len() && o <= scope
            && scopes[o as int].values.contains_key(name),
    decreases scope,
{
    if scope < scopes.len() && !scopes[scope as int].values.contains_key(name) {
        match scopes[scope as int].enclosing {
            Some(p) => {
                if p < scope {
                    lemma_owner_in_range(scopes, p, name);
                }
            },
            None => {},
        }
    }
}

/// An assignment by name adds and removes no scope.
pub proof fn lemma_assign_keeps_length<'a>(
    scopes: Seq<Scope<'a>>,
    scope: usize,
    name: Seq<char>,
    value: RuntimeValue<'a>,
)
    ensures
        scopes_assign(scopes, scope, name, value).len() == scopes.len(),
{
    lemma_owner_in_range(scopes, scope, name);
}

/// An assignment by distance adds and removes no scope.
pub proof fn lemma_assign_at_keeps_length<'a>(
    scopes: Seq<Scope<'a>>,
    scope: usize,
    distance: nat,
    name: Seq<char>,
    value: RuntimeValue<'a>,
)
    ensures
        scopes_assign_at(scopes, scope, distance, name, value).len() == scopes.len(),
{
    lemma_ancestor_in_range(scopes, scope, distance);
}

/// An ancestor of a scope is a scope of the store.
pub proof fn lemma_ancestor_in_range(scopes: Seq<Scope>, scope: usize, distance: nat)
    ensures
        scopes_ancestor(scopes, scope, distance) matches Some(target) ==> target < scopes.len(),
    decreases distance,
{
    if scope < scopes.len() && distance > 0 {
        match scopes[scope as int].enclosing {
            Some(p) => lemma_ancestor_in_range(scopes, p, (distance - 1) as nat),
            None => {},
        }
    }
}

/// Binding a name moves no scope: every scope keeps the scope around it.
pub proof fn lemma_ancestor_after_define<'a>(
    scopes: Seq<Scope<'a>>,
    target: usize,
    name: Seq<char>,
    value: RuntimeValue<'a>,
    scope: usize,
    distance: nat,
)
    requires
        target < scopes.len(),
    ensures
        scopes_ancestor(scopes_define(scopes, target, name, value), scope, distance)
            == scopes_ancestor(scopes, scope, distance),
    decreases distance,
{
    let after = scopes_define(scopes, target, name, value);
    if scope < scopes.len() && distance > 0 {
        assert(after[scope as int].enclosing == scopes[scope as int].enclosing);
        match scopes[scope as int].enclosing {
            Some(p) => lemma_ancestor_after_define(
                scopes,
                target,
                name,
                value,
                p,
                (distance - 1) as nat,
            ),
            None => {},
        }
    }
}

/// A write by distance reads back by the same distance, from the same
/// scope and from every other scope that reaches the written one: this is
/// how closures that captured one scope see each other's assignments.
pub proof fn law_assign_at_then_get_at<'a>(
    scopes: Seq<Scope<'a>>,
    writer: usize,
    distance: nat,
    reader: usize,
    reach: nat,
    name: Seq<char>,
    value: RuntimeValue<'a>,
)
    requires
        scopes_ancestor(scopes, writer, distance) is Some,
        scopes_ancestor(scopes, reader, reach) == scopes_ancestor(scopes, writer, distance),
    ensures
        scopes_get_at(scopes_assign_at(scopes, writer, distance, name, value), reader, reach, name)
            == Some(value),
{
    let target = scopes_ancestor(scopes, writer, distance).unwrap();
    lemma_ancestor_in_range(scopes, writer, distance);
    lemma_ancestor_after_define(scopes, target, name, value, reader, reach);
}

} // verus!
