use vstd::prelude::*;

use crate::error::EvalError;
use crate::origin::{is_override_tier, VarOrigin};
use crate::symtab::Symbol;
use crate::var::Variable;

verus! {

/// The index of a binding in the store that all scopes share.
pub type VarId = usize;

/// A scope: for each symbol, the binding it is bound to, if any.
///
/// Bindings live in a shared store and a scope holds their indices, so one
/// binding may be visible through several scopes at once.
pub struct Vars {
    slots: Vec<Option<VarId>>,
    guards: Ghost<nat>,
}

/// What an assignment does to a scope, and what it reports.
pub open spec fn assign_outcome(
    m: Map<Symbol, VarId>,
    store: Seq<Variable>,
    sym: Symbol,
    var: VarId,
) -> (Result<(), EvalError>, Map<Symbol, VarId>, bool) {
    if !m.contains_key(sym) || m[sym] >= store.len() {
        (Ok(()), m.insert(sym, var), false)
    } else if store[m[sym] as int].readonly {
        (Ok(()), m, true)
    } else if is_override_tier(store[m[sym] as int].origin) {
        (Ok(()), m, false)
    } else if store[m[sym] as int].origin == VarOrigin::Automatic {
        (Err(EvalError::OverrideAutomatic), m, false)
    } else {
        (Ok(()), m.insert(sym, var), false)
    }
}

/// The slot of `sym` in `m`.
pub open spec fn slot(m: Map<Symbol, VarId>, sym: Symbol) -> Option<VarId> {
    if m.contains_key(sym) {
        Some(m[sym])
    } else {
        None
    }
}

/// `m` with the slot of `sym` put back to `prior`.
pub open spec fn restored(m: Map<Symbol, VarId>, sym: Symbol, prior: Option<VarId>) -> Map<
    Symbol,
    VarId,
> {
    match prior {
        Some(v) => m.insert(sym, v),
        None => m.remove(sym),
    }
}

impl Vars {
    pub closed spec fn view(&self) -> Map<Symbol, VarId> {
        Map::new(
            |k: Symbol| k < self.slots@.len() && self.slots@[k as int] is Some,
            |k: Symbol| self.slots@[k as int]->Some_0,
        )
    }

    /// How many guards on this scope are not yet released.
    pub closed spec fn guard_depth(&self) -> nat {
        self.guards@
    }

    pub fn new() -> (r: Vars)
        ensures
            r@ == Map::<Symbol, VarId>::empty(),
            r.guard_depth() == 0,
    {
        let r = Vars { slots: Vec::new(), guards: Ghost(0) };
        assert(r@ =~= Map::<Symbol, VarId>::empty());
        r
    }

    /// The binding of `sym`, with no side effect.
    pub fn peek(&self, sym: Symbol) -> (r: Option<VarId>)
        ensures
            r == slot(self@, sym),
    {
        if sym < self.slots.len() {
            self.slots[sym]
        } else {
            None
        }
    }

    /// Binds `sym` to `var`, whatever was there; returns the prior binding.
    pub fn insert(&mut self, sym: Symbol, var: VarId) -> (r: Option<VarId>)
        ensures
            final(self)@ == old(self)@.insert(sym, var),
            r == slot(old(self)@, sym),
            final(self).guard_depth() == old(self).guard_depth(),
    {
        while self.slots.len() <= sym
            invariant
                self@ == old(self)@,
                self.guards == old(self).guards,
            decreases sym + 1 - self.slots@.len(),
        {
            self.slots.push(None);
            assert(self@ =~= old(self)@);
        }
        let prior = self.slots[sym];
        self.slots.set(sym, Some(var));
        assert(self@ =~= old(self)@.insert(sym, var));
        prior
    }

    /// Unbinds `sym`; returns the prior binding.
    pub fn remove(&mut self, sym: Symbol) -> (r: Option<VarId>)
        ensures
            final(self)@ == old(self)@.remove(sym),
            r == slot(old(self)@, sym),
            final(self).guard_depth() == old(self).guard_depth(),
    {
        if sym < self.slots.len() {
            let prior = self.slots[sym];
            self.slots.set(sym, None);
            assert(self@ =~= old(self)@.remove(sym));
            prior
        } else {
            assert(self@ =~= old(self)@.remove(sym));
            None
        }
    }

    /// Assigns `var` to `sym` under the precedence rules. A readonly
    /// binding stays and `readonly` is set; an override-tier binding stays;
    /// an automatic one is an error; otherwise the new binding replaces it.
    pub fn assign(&mut self, store: &Vec<Variable>, sym: Symbol, var: VarId, readonly: &mut bool) -> (r:
        Result<(), EvalError>)
        ensures
            (r, final(self)@, *final(readonly)) == assign_outcome(old(self)@, store@, sym, var),
            final(self).guard_depth() == old(self).guard_depth(),
    {
        *readonly = false;
        match self.peek(sym) {
            Some(id) => {
                if id < store.len() {
                    let orig = &store[id];
                    if orig.readonly {
                        *readonly = true;
                        return Ok(());
                    }
                    match orig.origin() {
                        VarOrigin::Override | VarOrigin::EnvironmentOverride => return Ok(()),
                        VarOrigin::Automatic => return Err(EvalError::OverrideAutomatic),
                        _ => {},
                    }
                }
                self.insert(sym, var);
                Ok(())
            },
            None => {
                self.insert(sym, var);
                Ok(())
            },
        }
    }

    /// Copies every binding of `other` into this scope, replacing those of
    /// the same symbols. The bindings are shared, not copied.
    pub fn merge_from(&mut self, other: &Vars)
        ensures
            final(self)@ == old(self)@.union_prefer_right(other@),
            final(self).guard_depth() == old(self).guard_depth(),
    {
        let mut i: usize = 0;
        while i < other.slots.len()
            invariant
                i <= other.slots@.len(),
                self.guard_depth() == old(self).guard_depth(),
                self@ == old(self)@.union_prefer_right(
                    other@.restrict(Set::new(|k: Symbol| k < i)),
                ),
            decreases other.slots@.len() - i,
        {
            if let Some(id) = other.slots[i] {
                self.insert(i, id);
            }
            i = i + 1;
            assert(self@ =~= old(self)@.union_prefer_right(
                other@.restrict(Set::new(|k: Symbol| k < i)),
            ));
        }
        assert(other@.restrict(Set::new(|k: Symbol| k < i)) =~= other@);
    }
}

impl Default for Vars {
    fn default() -> (r: Vars)
        ensures
            r@ == Map::<Symbol, VarId>::empty(),
            r.guard_depth() == 0,
    {
        Vars::new()
    }
}

impl Clone for Vars {
    /// A scope of its own, with no guards, that shares the bindings of
    /// this one.
    fn clone(&self) -> (r: Vars)
        ensures
            r@ == self@,
            r.guard_depth() == 0,
    {
        let r = Vars { slots: self.slots.clone(), guards: Ghost(0) };
        assert(r.slots@ =~= self.slots@);
        assert(r@ =~= self@);
        r
    }
}

/// A binding installed for a dynamic extent. `release` consumes the guard
/// and puts back what was there before. Each guard knows how deep it stands
/// among the open guards of its scope, and only the innermost may be
/// released: guards on one scope come off in the reverse order of their
/// creation.
#[must_use]
pub struct ScopedVar {
    sym: Symbol,
    orig: Option<VarId>,
    depth: Ghost<nat>,
}

impl ScopedVar {
    pub closed spec fn symbol(&self) -> Symbol {
        self.sym
    }

    /// The number of open guards on the scope once this one was made.
    pub closed spec fn depth(&self) -> nat {
        self.depth@
    }

    /// What the slot held when the guard was made.
    pub closed spec fn prior(&self) -> Option<VarId> {
        self.orig
    }

    /// Binds `sym` to `var` in `vars` until the guard is released.
    pub fn new(vars: &mut Vars, sym: Symbol, var: VarId) -> (r: ScopedVar)
        ensures
            final(vars)@ == old(vars)@.insert(sym, var),
            final(vars).guard_depth() == old(vars).guard_depth() + 1,
            r.symbol() == sym,
            r.prior() == slot(old(vars)@, sym),
            r.depth() == final(vars).guard_depth(),
    {
        let orig = vars.insert(sym, var);
        vars.guards = Ghost(vars.guards@ + 1);
        ScopedVar { sym, orig, depth: Ghost(vars.guards@) }
    }

    /// Puts back the binding that was there before, or removes the slot if
    /// there was none.
    pub fn release(self, vars: &mut Vars)
        requires
            0 < self.depth(),
            old(vars).guard_depth() == self.depth(),
        ensures
            final(vars)@ == restored(old(vars)@, self.symbol(), self.prior()),
            final(vars).guard_depth() + 1 == old(vars).guard_depth(),
    {
        match self.orig {
            Some(v) => {
                vars.insert(self.sym, v);
            },
            None => {
                vars.remove(self.sym);
            },
        }
        vars.guards = Ghost((vars.guards@ - 1) as nat);
    }
}

/// An assignment to a symbol bound to a readonly binding changes nothing:
/// the scope keeps the same binding, so its value stays what it was.
pub proof fn lemma_readonly_blocks_assign(
    m: Map<Symbol, VarId>,
    store: Seq<Variable>,
    sym: Symbol,
    var: VarId,
)
    requires
        m.contains_key(sym),
        m[sym] < store.len(),
        store[m[sym] as int].readonly,
    ensures
        assign_outcome(m, store, sym, var) == (Ok::<(), EvalError>(()), m, true),
{
}

/// A binding of override or environment-override origin outlives any later
/// assignment that is not readonly-blocked: the assignment reports success
/// and the scope still holds the original binding.
pub proof fn lemma_override_wins(m: Map<Symbol, VarId>, store: Seq<Variable>, sym: Symbol, var: VarId)
    requires
        m.contains_key(sym),
        m[sym] < store.len(),
        store[m[sym] as int].origin == VarOrigin::Override || store[m[sym] as int].origin
            == VarOrigin::EnvironmentOverride,
    ensures
        assign_outcome(m, store, sym, var).0 is Ok,
        assign_outcome(m, store, sym, var).1 == m,
        slot(assign_outcome(m, store, sym, var).1, sym) == Some(m[sym]),
{
}

/// A binding of command-line origin is no override: an assignment to it
/// succeeds and installs the new binding.
pub proof fn lemma_command_line_replaced(
    m: Map<Symbol, VarId>,
    store: Seq<Variable>,
    sym: Symbol,
    var: VarId,
)
    requires
        m.contains_key(sym),
        m[sym] < store.len(),
        store[m[sym] as int].origin == VarOrigin::CommandLine,
        !store[m[sym] as int].readonly,
    ensures
        assign_outcome(m, store, sym, var) == (Ok::<(), EvalError>(()), m.insert(sym, var), false),
{
}

/// Releasing a guard gives back the exact scope it was made on, including
/// an absent slot.
pub proof fn lemma_guard_restores(m: Map<Symbol, VarId>, sym: Symbol, var: VarId)
    ensures
        restored(m.insert(sym, var), sym, slot(m, sym)) == m,
{
    assert(restored(m.insert(sym, var), sym, slot(m, sym)) =~= m);
}

/// Two guards on one symbol, released in reverse order, give back the
/// scope from before the first.
pub proof fn lemma_nested_guards_restore(m: Map<Symbol, VarId>, sym: Symbol, outer: VarId, inner: VarId)
    ensures
        ({
            let m1 = m.insert(sym, outer);
            let m2 = m1.insert(sym, inner);
            restored(restored(m2, sym, slot(m1, sym)), sym, slot(m, sym)) == m
        }),
{
    let m1 = m.insert(sym, outer);
    let m2 = m1.insert(sym, inner);
    assert(restored(m2, sym, slot(m1, sym)) =~= m1);
    lemma_guard_restores(m, sym, outer);
}

} // verus!
