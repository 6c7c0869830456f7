//! Per-function expression-building state: the expression arena with its
//! cached type resolutions, local variables, and the lexical scope stack.

use vstd::prelude::*;

use crate::ast::{GlobalLookup, GlobalLookupKind, VariableReference};
use crate::ir::{AddressSpace, Expression, ExpressionHandle, LocalVariable, TypeHandle};
use crate::module::Module;

verus! {

/// The resolved type of an expression: the handle of its value type, and
/// whether the expression itself is a pointer to a value of that type.
#[derive(Clone, Copy, PartialEq, Eq, Structural, Debug)]
pub struct ResolvedType {
    pub ty: TypeHandle,
    pub pointer: bool,
}

/// One name bound in a scope, most recent binding last.
#[derive(Clone, PartialEq, Eq, Debug)]
pub struct ScopeEntry {
    pub name: String,
    pub var: VariableReference,
}

/// The binding of `name` in a flat scope: the latest entry under that name.
pub open spec fn scope_find(s: Seq<ScopeEntry>, name: Seq<char>) -> Option<VariableReference>
    decreases s.len(),
{
    if s.len() == 0 {
        None
    } else if s.last().name@ == name {
        Some(s.last().var)
    } else {
        scope_find(s.drop_last(), name)
    }
}

/// The binding of `name` in a scope stack, innermost (last) scope first.
pub open spec fn scopes_find(scopes: Seq<Vec<ScopeEntry>>, name: Seq<char>) -> Option<
    VariableReference,
>
    decreases scopes.len(),
{
    if scopes.len() == 0 {
        None
    } else {
        match scope_find(scopes.last()@, name) {
            Some(var) => Some(var),
            None => scopes_find(scopes.drop_last(), name),
        }
    }
}

/// Searches one flat scope, latest binding first.
fn scope_lookup(entries: &Vec<ScopeEntry>, name: &str) -> (r: Option<VariableReference>)
    ensures
        r == scope_find(entries@, name@),
{
    let n: usize = entries.len();
    assert(entries@.take(n as int) =~= entries@);
    let mut i: usize = n;
    while i > 0
        invariant
            i <= n,
            n == entries@.len(),
            scope_find(entries@, name@) == scope_find(entries@.take(i as int), name@),
        decreases i,
    {
        i -= 1;
        let entry = &entries[i];
        if str_eq(entry.name.as_str(), name) {
            assert(entries@.take(i as int + 1).last() == entries@[i as int]);
            return Some(entry.var);
        }
        assert(entries@.take(i as int + 1).drop_last() =~= entries@.take(i as int));
    }
    assert(entries@.take(0) =~= Seq::<ScopeEntry>::empty());
    None
}

/// Character-wise string comparison.
pub fn str_eq(a: &str, b: &str) -> (r: bool)
    ensures
        r == (a@ == b@),
{
    let owned_a: String = a.to_owned();
    let owned_b: String = b.to_owned();
    <String as PartialEq>::eq(&owned_a, &owned_b)
}

pub struct Context {
    /// The expression arena of the function being built.
    pub expressions: Vec<Expression>,
    /// Cached type resolution of each expression, index for index.
    pub resolutions: Vec<ResolvedType>,
    /// The local-variable arena of the function being built.
    pub locals: Vec<LocalVariable>,
    /// Lexical scopes, innermost last.
    pub scopes: Vec<Vec<ScopeEntry>>,
    /// Global names already materialized as expressions of this function.
    pub global_refs: Vec<ScopeEntry>,
}

impl Context {
    /// Expressions and their cached resolutions stay index for index, and
    /// every stored swizzle carries a full four-slot pattern.
    pub open spec fn wf(&self) -> bool {
        &&& self.expressions@.len() == self.resolutions@.len()
        &&& forall|i: int|
            0 <= i < self.expressions@.len() ==> ((#[trigger] self.expressions@[i])
                matches Expression::Swizzle { pattern, .. } ==> pattern@.len() == 4)
    }

    pub fn new() -> (r: Context)
        ensures
            r.wf(),
            r.expressions@ == Seq::<Expression>::empty(),
            r.resolutions@ == Seq::<ResolvedType>::empty(),
            r.locals@ == Seq::<LocalVariable>::empty(),
            r.scopes@.len() == 1,
            r.scopes@[0]@ == Seq::<ScopeEntry>::empty(),
            r.global_refs@ == Seq::<ScopeEntry>::empty(),
    {
        let mut scopes: Vec<Vec<ScopeEntry>> = Vec::new();
        scopes.push(Vec::new());
        Context {
            expressions: Vec::new(),
            resolutions: Vec::new(),
            locals: Vec::new(),
            scopes,
            global_refs: Vec::new(),
        }
    }

    /// Appends an expression together with its resolved type.
    pub fn add_expression(&mut self, expr: Expression, ty: TypeHandle, pointer: bool) -> (r:
        ExpressionHandle)
        requires
            old(self).wf(),
            expr matches Expression::Swizzle { pattern, .. } ==> pattern@.len() == 4,
        ensures
            final(self).wf(),
            final(self).expressions@ == old(self).expressions@.push(expr),
            final(self).resolutions@ == old(self).resolutions@.push(
                ResolvedType { ty, pointer },
            ),
            final(self).locals@ == old(self).locals@,
            final(self).scopes@ == old(self).scopes@,
            final(self).global_refs@ == old(self).global_refs@,
            r.index == old(self).expressions@.len(),
    {
        let index: usize = self.expressions.len();
        self.expressions.push(expr);
        self.resolutions.push(ResolvedType { ty, pointer });
        ExpressionHandle { index }
    }

    /// Opens a nested lexical scope.
    pub fn push_scope(&mut self)
        ensures
            final(self).scopes@.len() == old(self).scopes@.len() + 1,
            final(self).scopes@.drop_last() == old(self).scopes@,
            final(self).scopes@.last()@ == Seq::<ScopeEntry>::empty(),
            final(self).expressions@ == old(self).expressions@,
            final(self).resolutions@ == old(self).resolutions@,
            final(self).locals@ == old(self).locals@,
            final(self).global_refs@ == old(self).global_refs@,
    {
        let fresh: Vec<ScopeEntry> = Vec::new();
        self.scopes.push(fresh);
        proof {
            assert(self.scopes@.drop_last() =~= old(self).scopes@);
        }
    }

    /// Closes the innermost lexical scope; without one, does nothing.
    pub fn pop_scope(&mut self)
        ensures
            old(self).scopes@.len() > 0 ==> final(self).scopes@ == old(self).scopes@.drop_last(),
            old(self).scopes@.len() == 0 ==> final(self).scopes@ == old(self).scopes@,
            final(self).expressions@ == old(self).expressions@,
            final(self).resolutions@ == old(self).resolutions@,
            final(self).locals@ == old(self).locals@,
            final(self).global_refs@ == old(self).global_refs@,
    {
        if self.scopes.len() > 0 {
            let _ = self.scopes.pop();
        }
    }

    /// The binding of `name` in the local scopes, innermost first.
    pub fn lookup_local_var(&self, name: &str) -> (r: Option<VariableReference>)
        ensures
            r == scopes_find(self.scopes@, name@),
    {
        let depth: usize = self.scopes.len();
        assert(self.scopes@.take(depth as int) =~= self.scopes@);
        let mut level: usize = depth;
        while level > 0
            invariant
                level <= depth,
                depth == self.scopes@.len(),
                scopes_find(self.scopes@, name@) == scopes_find(
                    self.scopes@.take(level as int),
                    name@,
                ),
            decreases level,
        {
            level -= 1;
            let found = scope_lookup(&self.scopes[level], name);
            if found.is_some() {
                assert(self.scopes@.take(level as int + 1).last() == self.scopes@[level as int]);
                return found;
            }
            assert(self.scopes@.take(level as int + 1).drop_last() =~= self.scopes@.take(
                level as int,
            ));
            assert(self.scopes@.take(level as int + 1).last() == self.scopes@[level as int]);
        }
        assert(self.scopes@.take(0) =~= Seq::<Vec<ScopeEntry>>::empty());
        None
    }

    /// The binding of `name` in the innermost scope alone.
    pub fn lookup_local_var_current_scope(&self, name: &str) -> (r: Option<VariableReference>)
        ensures
            self.scopes@.len() > 0 ==> r == scope_find(self.scopes@.last()@, name@),
            self.scopes@.len() == 0 ==> r is None,
    {
        if self.scopes.len() > 0 {
            scope_lookup(&self.scopes[self.scopes.len() - 1], name)
        } else {
            None
        }
    }

    /// The cached reference of a global name already used in this function.
    pub fn lookup_global_var(&self, name: &str) -> (r: Option<VariableReference>)
        ensures
            r == scope_find(self.global_refs@, name@),
    {
        scope_lookup(&self.global_refs, name)
    }

    /// Binds a local name in the innermost scope; without a scope, does
    /// nothing.
    pub fn add_local_var(&mut self, name: String, expr: ExpressionHandle, mutable: bool)
        ensures
            final(self).expressions@ == old(self).expressions@,
            final(self).resolutions@ == old(self).resolutions@,
            final(self).locals@ == old(self).locals@,
            final(self).global_refs@ == old(self).global_refs@,
            old(self).scopes@.len() == 0 ==> final(self).scopes@ == old(self).scopes@,
            old(self).scopes@.len() > 0 ==> {
                &&& final(self).scopes@.len() == old(self).scopes@.len()
                &&& final(self).scopes@.last()@ == old(self).scopes@.last()@.push(
                    ScopeEntry {
                        name,
                        var: VariableReference {
                            expr,
                            load: true,
                            mutable,
                            constant: None,
                            entry_arg: None,
                        },
                    },
                )
                &&& forall|i: int|
                    0 <= i < old(self).scopes@.len() - 1 ==> final(self).scopes@[i] == old(
                        self,
                    ).scopes@[i]
            },
    {
        let depth: usize = self.scopes.len();
        if depth > 0 {
            let entry = ScopeEntry {
                name,
                var: VariableReference {
                    expr,
                    load: true,
                    mutable,
                    constant: None,
                    entry_arg: None,
                },
            };
            let scope = &mut self.scopes[depth - 1];
            scope.push(entry);
        }
    }

    /// Materializes the expression referring to a freshly registered global
    /// and caches it under its name. A variable lookup is a pointer needing a
    /// load except in the opaque handle space; a constant lookup is the
    /// constant's value itself.
    pub fn add_global(&mut self, module: &Module, name: &str, lookup: GlobalLookup)
        requires
            old(self).wf(),
            lookup.kind matches GlobalLookupKind::Variable(h) ==> h.index
                < module.global_variables@.len(),
        ensures
            final(self).wf(),
            final(self).locals@ == old(self).locals@,
            final(self).scopes@ == old(self).scopes@,
            final(self).expressions@ == old(self).expressions@.push(global_expression(lookup)),
            final(self).resolutions@ == old(self).resolutions@.push(
                global_resolution(lookup, module),
            ),
            final(self).global_refs@.len() == old(self).global_refs@.len() + 1,
            final(self).global_refs@.drop_last() == old(self).global_refs@,
            final(self).global_refs@.last().name@ == name@,
            final(self).global_refs@.last().var == global_reference(
                lookup,
                module,
                ExpressionHandle { index: old(self).expressions@.len() as usize },
            ),
            scope_find(final(self).global_refs@, name@) == Some(
                global_reference(
                    lookup,
                    module,
                    ExpressionHandle { index: old(self).expressions@.len() as usize },
                ),
            ),
    {
        let (expr, ty, pointer) = match lookup.kind {
            GlobalLookupKind::Variable(handle) => {
                let var = &module.global_variables[handle.index];
                let opaque = matches!(var.space, AddressSpace::Handle);
                (Expression::GlobalVariable(handle), var.ty, !opaque)
            },
            GlobalLookupKind::Constant(handle, ty) => (Expression::Constant(handle), ty, false),
        };
        let load = pointer;
        let constant = match lookup.kind {
            GlobalLookupKind::Variable(_) => None,
            GlobalLookupKind::Constant(handle, ty) => Some((handle, ty)),
        };
        let expr_handle = self.add_expression(expr, ty, pointer);
        let reference = VariableReference {
            expr: expr_handle,
            load,
            mutable: lookup.mutable,
            constant,
            entry_arg: lookup.entry_arg,
        };
        self.global_refs.push(ScopeEntry { name: name.to_owned(), var: reference });
    }
}

/// The expression a global lookup materializes.
pub open spec fn global_expression(lookup: GlobalLookup) -> Expression {
    match lookup.kind {
        GlobalLookupKind::Variable(h) => Expression::GlobalVariable(h),
        GlobalLookupKind::Constant(c, _) => Expression::Constant(c),
    }
}

/// The cached type resolution of that expression.
pub open spec fn global_resolution(lookup: GlobalLookup, module: &Module) -> ResolvedType {
    match lookup.kind {
        GlobalLookupKind::Variable(h) => ResolvedType {
            ty: module.global_variables@[h.index as int].ty,
            pointer: module.global_variables@[h.index as int].space != AddressSpace::Handle,
        },
        GlobalLookupKind::Constant(_, ty) => ResolvedType { ty, pointer: false },
    }
}

/// The variable reference a global lookup caches.
pub open spec fn global_reference(
    lookup: GlobalLookup,
    module: &Module,
    expr: ExpressionHandle,
) -> VariableReference {
    match lookup.kind {
        GlobalLookupKind::Variable(h) => VariableReference {
            expr,
            load: module.global_variables@[h.index as int].space != AddressSpace::Handle,
            mutable: lookup.mutable,
            constant: None,
            entry_arg: lookup.entry_arg,
        },
        GlobalLookupKind::Constant(c, ty) => VariableReference {
            expr,
            load: false,
            mutable: lookup.mutable,
            constant: Some((c, ty)),
            entry_arg: lookup.entry_arg,
        },
    }
}

} // verus!
