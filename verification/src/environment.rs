//! The environment: a chain of lexical scopes mapping names to runtime
//! values, with constant tracking.
//!
//! The chain is held innermost-last; lookup and assignment walk from the
//! innermost scope outward, and the first scope that contains the name
//! is authoritative (shadowing). The spec functions `env_resolve`,
//! `env_lookup`, `spec_declare` and `spec_assign` define every operation
//! over the model of the chain, and each method is proved to behave
//! exactly as they say.

use vstd::prelude::*;
use crate::errors::ErrModel;
use crate::errors::InterpError;
use crate::errors::NameErrorKind;
use crate::errors::result_model;
use crate::values::Bool;
use crate::values::boolean_value;
use crate::values::BooleanVal;
use crate::values::RuntimeVal;
use crate::values::ValueType;

verus! {

/// One binding of a scope: a name, its current value, and whether the
/// name was declared constant.
#[derive(Debug)]
pub struct Binding {
    pub name: String,
    pub value: RuntimeVal,
    pub constant: bool,
}

/// The mathematical shape of a binding: the name as a character
/// sequence.
pub struct BindingModel {
    pub name: Seq<char>,
    pub value: RuntimeVal,
    pub constant: bool,
}

/// The model of a chain of scopes, innermost scope last.
pub type ScopeChain = Seq<Seq<BindingModel>>;

/// The model of a binding.
pub open spec fn binding_model(b: Binding) -> BindingModel {
    BindingModel { name: b.name@, value: b.value, constant: b.constant }
}

/// The model of one scope.
pub open spec fn scope_model(s: Seq<Binding>) -> Seq<BindingModel> {
    s.map_values(|b: Binding| binding_model(b))
}

/// A chain of scopes. The root scope sits first; a child scope created
/// with a parent extends the parent's chain by one fresh scope.
#[derive(Debug)]
pub struct Environment {
    pub scopes: Vec<Vec<Binding>>,
}

/// The model of the whole environment.
pub open spec fn env_model(env: Environment) -> ScopeChain {
    env.scopes@.map_values(|s: Vec<Binding>| scope_model(s@))
}

/// The index of the first binding at or after `j` whose name is `name`.
pub open spec fn scope_find_from(s: Seq<BindingModel>, name: Seq<char>, j: int) -> Option<int>
    decreases s.len() - j,
{
    if j < 0 || j >= s.len() {
        None
    } else if s[j].name == name {
        Some(j)
    } else {
        scope_find_from(s, name, j + 1)
    }
}

/// The index of the binding of `name` within one scope, if any.
pub open spec fn scope_find(s: Seq<BindingModel>, name: Seq<char>) -> Option<int> {
    scope_find_from(s, name, 0)
}

/// The index of the innermost scope at or below `k` that binds `name`.
pub open spec fn env_resolve_from(chain: ScopeChain, name: Seq<char>, k: int) -> Option<int>
    decreases k + 1,
{
    if k < 0 || k >= chain.len() {
        None
    } else if scope_find(chain[k], name) is Some {
        Some(k)
    } else {
        env_resolve_from(chain, name, k - 1)
    }
}

/// The index of the scope that owns `name`: the innermost scope, walking
/// outward, that contains a binding for it.
pub open spec fn env_resolve(chain: ScopeChain, name: Seq<char>) -> Option<int> {
    env_resolve_from(chain, name, chain.len() - 1)
}

/// The value bound to `name`, resolved by the shadowing rule, if the
/// name is bound anywhere in the chain.
pub open spec fn env_lookup(chain: ScopeChain, name: Seq<char>) -> Option<RuntimeVal> {
    match env_resolve(chain, name) {
        None => None,
        Some(k) => match scope_find(chain[k], name) {
            Some(j) => Some(chain[k][j].value),
            None => None,
        },
    }
}

/// What declaring `name` in the current (innermost) scope does: an
/// `AlreadyDeclared` failure when the scope itself has the name (even if
/// an outer scope also has it — shadowing is allowed, redeclaring is
/// not); otherwise the binding is appended to the innermost scope and
/// the declared value returned.
pub open spec fn spec_declare(
    chain: ScopeChain,
    name: Seq<char>,
    value: RuntimeVal,
    constant: bool,
) -> (Result<RuntimeVal, ErrModel>, ScopeChain) {
    let scope = chain.last();
    if scope_find(scope, name) is Some {
        (Err(ErrModel::NameError { kind: NameErrorKind::AlreadyDeclared, name }), chain)
    } else {
        (
            Ok(value),
            chain.update(
                chain.len() - 1,
                scope.push(BindingModel { name, value, constant }),
            ),
        )
    }
}

/// What assigning to `name` does: an `Unbound` failure when no reachable
/// scope binds it; a `ConstantReassignment` failure when the owning
/// scope marked it constant; otherwise the binding in the owning scope
/// (not the current one) is replaced and the new value returned.
pub open spec fn spec_assign(chain: ScopeChain, name: Seq<char>, value: RuntimeVal) -> (Result<
    RuntimeVal,
    ErrModel,
>, ScopeChain) {
    match env_resolve(chain, name) {
        None => (Err(ErrModel::NameError { kind: NameErrorKind::Unbound, name }), chain),
        Some(k) => match scope_find(chain[k], name) {
            None => (Err(ErrModel::NameError { kind: NameErrorKind::Unbound, name }), chain),
            Some(j) => if chain[k][j].constant {
                (
                    Err(ErrModel::NameError { kind: NameErrorKind::ConstantReassignment, name }),
                    chain,
                )
            } else {
                (
                    Ok(value),
                    chain.update(
                        k,
                        chain[k].update(
                            j,
                            BindingModel { name: chain[k][j].name, value, constant: false },
                        ),
                    ),
                )
            },
        },
    }
}

/// What looking `name` up does: its resolved value, or an `Unbound`
/// failure.
pub open spec fn spec_lookup(chain: ScopeChain, name: Seq<char>) -> Result<RuntimeVal, ErrModel> {
    match env_lookup(chain, name) {
        Some(v) => Ok(v),
        None => Err(ErrModel::NameError { kind: NameErrorKind::Unbound, name }),
    }
}

/// Finds the binding of `name` in one scope, scanning front to back.
fn find_in_scope(scope: &Vec<Binding>, name: &String) -> (r: Option<usize>)
    ensures
        match r {
            Some(j) => j < scope.len() && scope_find(scope_model(scope@), name@) == Some(
                j as int,
            ),
            None => scope_find(scope_model(scope@), name@) is None,
        },
{
    let ghost s = scope_model(scope@);
    let mut j: usize = 0;
    while j < scope.len()
        invariant
            s == scope_model(scope@),
            0 <= j <= scope.len(),
            s.len() == scope.len(),
            scope_find_from(s, name@, 0) == scope_find_from(s, name@, j as int),
        decreases scope.len() - j,
    {
        if scope[j].name.eq(name) {
            return Some(j);
        }
        j = j + 1;
    }
    None
}

impl Environment {
    /// All environments hold at least their root scope.
    pub open spec fn wf(&self) -> bool {
        self.scopes.len() >= 1
    }

    /// A fresh environment. With no parent it is a root with one empty
    /// scope; with a parent it extends the parent's chain by one fresh
    /// innermost scope.
    pub fn new(parent_env: Option<Box<Environment>>) -> (env: Environment)
        ensures
            env.wf(),
            env_model(env) == match parent_env {
                None => seq![Seq::<BindingModel>::empty()],
                Some(p) => env_model(*p).push(Seq::<BindingModel>::empty()),
            },
    {
        match parent_env {
            None => {
                let mut scopes: Vec<Vec<Binding>> = Vec::new();
                scopes.push(Vec::new());
                let env = Environment { scopes };
                proof {
                    assert(env_model(env) =~~= seq![Seq::<BindingModel>::empty()]);
                }
                env
            },
            Some(p) => {
                let ghost pm = env_model(*p);
                let mut scopes = p.scopes;
                scopes.push(Vec::new());
                let env = Environment { scopes };
                proof {
                    assert(env_model(env) =~~= pm.push(Seq::<BindingModel>::empty()));
                }
                env
            },
        }
    }

    /// The root environment of a run, seeded with the two constant
    /// boolean bindings `true` and `false` before any user input is
    /// processed.
    pub fn new_global() -> (env: Environment)
        ensures
            env.wf(),
            env_model(env) == seq![
                seq![
                    BindingModel { name: "true"@, value: boolean_value(Bool::True), constant: true },
                    BindingModel {
                        name: "false"@,
                        value: boolean_value(Bool::False),
                        constant: true,
                    },
                ],
            ],
    {
        let mut scope: Vec<Binding> = Vec::new();
        scope.push(
            Binding {
                name: String::from_str("true"),
                value: RuntimeVal::BooleanVal(
                    BooleanVal { value_type: ValueType::Boolean, value: Bool::True },
                ),
                constant: true,
            },
        );
        scope.push(
            Binding {
                name: String::from_str("false"),
                value: RuntimeVal::BooleanVal(
                    BooleanVal { value_type: ValueType::Boolean, value: Bool::False },
                ),
                constant: true,
            },
        );
        let mut scopes: Vec<Vec<Binding>> = Vec::new();
        scopes.push(scope);
        let env = Environment { scopes };
        proof {
            assert(env_model(env) =~~= seq![
                seq![
                    BindingModel { name: "true"@, value: boolean_value(Bool::True), constant: true },
                    BindingModel {
                        name: "false"@,
                        value: boolean_value(Bool::False),
                        constant: true,
                    },
                ],
            ]);
        }
        env
    }

    /// The index of the scope that owns `varname`, per the shadowing
    /// rule, or an `Unbound` name error.
    pub fn resolve(&self, varname: &String) -> (r: Result<usize, InterpError>)
        ensures
            match r {
                Ok(k) => {
                    &&& k < self.scopes.len()
                    &&& env_resolve(env_model(*self), varname@) == Some(k as int)
                    &&& scope_find(env_model(*self)[k as int], varname@) is Some
                },
                Err(e) => {
                    &&& env_resolve(env_model(*self), varname@) is None
                    &&& crate::errors::err_model(e) == (ErrModel::NameError {
                        kind: NameErrorKind::Unbound,
                        name: varname@,
                    })
                },
            },
    {
        let ghost chain = env_model(*self);
        let mut k: usize = self.scopes.len();
        while k > 0
            invariant
                chain == env_model(*self),
                0 <= k <= self.scopes.len(),
                chain.len() == self.scopes.len(),
                env_resolve(chain, varname@) == env_resolve_from(chain, varname@, k - 1),
            decreases k,
        {
            k = k - 1;
            proof {
                assert(chain[k as int] == scope_model(self.scopes@[k as int]@));
            }
            let found = find_in_scope(&self.scopes[k], varname);
            if found.is_some() {
                return Ok(k);
            }
        }
        Err(
            InterpError::NameError {
                kind: NameErrorKind::Unbound,
                name: varname.clone(),
            },
        )
    }

    /// Declares `varname` in the current scope, exactly as
    /// `spec_declare` says: a name error if the scope already has it,
    /// else the binding is added (constant when asked) and the value
    /// returned.
    pub fn declare_var(&mut self, varname: String, value: RuntimeVal, isconstant: bool) -> (r:
        Result<RuntimeVal, InterpError>)
        requires
            old(self).wf(),
        ensures
            final(self).wf(),
            result_model(r) == spec_declare(
                env_model(*old(self)),
                varname@,
                value,
                isconstant,
            ).0,
            env_model(*final(self)) == spec_declare(
                env_model(*old(self)),
                varname@,
                value,
                isconstant,
            ).1,
    {
        let ghost chain = env_model(*old(self));
        let n = self.scopes.len();
        proof {
            assert(chain.last() == scope_model(self.scopes@[n - 1]@));
        }
        let found = find_in_scope(&self.scopes[n - 1], &varname);
        if found.is_some() {
            return Err(InterpError::NameError { kind: NameErrorKind::AlreadyDeclared, name: varname });
        }
        let mut scope = self.scopes.pop().unwrap();
        scope.push(Binding { name: varname, value, constant: isconstant });
        self.scopes.push(scope);
        proof {
            assert(env_model(*self) =~~= chain.update(
                chain.len() - 1,
                chain.last().push(binding_model(Binding { name: varname, value, constant: isconstant })),
            ));
        }
        Ok(value)
    }

    /// Assigns to `varname`, exactly as `spec_assign` says: the owning
    /// scope's binding is replaced unless the name is unbound or
    /// constant, and the new value returned.
    pub fn assign_var(&mut self, varname: String, value: RuntimeVal) -> (r: Result<
        RuntimeVal,
        InterpError,
    >)
        ensures
            final(self).wf() == old(self).wf(),
            result_model(r) == spec_assign(env_model(*old(self)), varname@, value).0,
            env_model(*final(self)) == spec_assign(env_model(*old(self)), varname@, value).1,
    {
        let ghost chain = env_model(*old(self));
        let k = match self.resolve(&varname) {
            Ok(k) => k,
            Err(e) => {
                return Err(e);
            },
        };
        let j = match find_in_scope(&self.scopes[k], &varname) {
            Some(j) => j,
            None => {
                proof {
                    assert(false);
                }
                return Err(InterpError::NameError { kind: NameErrorKind::Unbound, name: varname });
            },
        };
        if self.scopes[k][j].constant {
            return Err(
                InterpError::NameError {
                    kind: NameErrorKind::ConstantReassignment,
                    name: varname,
                },
            );
        }
        let mut scope = self.scopes.remove(k);
        let old_binding = scope.remove(j);
        scope.insert(j, Binding { name: old_binding.name, value, constant: false });
        self.scopes.insert(k, scope);
        proof {
            assert(env_model(*self) =~~= chain.update(
                k as int,
                chain[k as int].update(
                    j as int,
                    BindingModel { name: chain[k as int][j as int].name, value, constant: false },
                ),
            ));
        }
        Ok(value)
    }

    /// Looks `varname` up, exactly as `spec_lookup` says: its value
    /// under the shadowing rule, or an `Unbound` name error.
    pub fn lookup_var(&self, varname: String) -> (r: Result<RuntimeVal, InterpError>)
        ensures
            result_model(r) == spec_lookup(env_model(*self), varname@),
    {
        let k = match self.resolve(&varname) {
            Ok(k) => k,
            Err(e) => {
                return Err(e);
            },
        };
        match find_in_scope(&self.scopes[k], &varname) {
            Some(j) => Ok(self.scopes[k][j].value),
            None => {
                proof {
                    assert(false);
                }
                Err(InterpError::NameError { kind: NameErrorKind::Unbound, name: varname })
            },
        }
    }
}

} // verus!
