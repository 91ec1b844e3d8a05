use vstd::prelude::*;

use crate::error::EvalError;
use crate::scope::{VarId, Vars};
use crate::symtab::{push_bytes, Symbol, SymbolTable};
use crate::origin::VarOrigin;
use crate::value::{Frame, Loc, Piece, Value};
use crate::var::{AutoCommandVar, Deprecation, InnerVar, Variable};

verus! {

/// The state that belongs to one evaluation worker.
pub struct Worker {
    /// The exit status of the last top-level shell invocation.
    pub shell_status: Option<i32>,
    /// The environment-derived symbols that were read.
    pub used_env_vars: Vec<Symbol>,
}

impl Worker {
    pub fn new() -> (r: Worker)
        ensures
            r.shell_status is None,
            r.used_env_vars@ == Seq::<Symbol>::empty(),
    {
        Worker { shell_status: None, used_env_vars: Vec::new() }
    }

    /// Records that `sym` was read from the environment.
    pub fn record_env_use(&mut self, sym: Symbol)
        ensures
            final(self).shell_status == old(self).shell_status,
            forall|s: Symbol|
                #[trigger] final(self).used_env_vars@.contains(s) <==> old(
                    self,
                ).used_env_vars@.contains(s) || s == sym,
    {
        let mut i: usize = 0;
        while i < self.used_env_vars.len()
            invariant
                i <= self.used_env_vars@.len(),
                forall|j: int| 0 <= j < i ==> self.used_env_vars@[j] != sym,
            decreases self.used_env_vars@.len() - i,
        {
            if self.used_env_vars[i] == sym {
                return;
            }
            i = i + 1;
        }
        self.used_env_vars.push(sym);
        proof {
            assert forall|s: Symbol| #[trigger]
                old(self).used_env_vars@.contains(s) implies self.used_env_vars@.contains(s) by {
                {
                    let k = choose|k: int|
                        0 <= k < old(self).used_env_vars@.len() && old(self).used_env_vars@[k]
                            == s;
                    assert(self.used_env_vars@[k] == s);
                }
            }
            assert(self.used_env_vars@[old(self).used_env_vars@.len() as int] == sym);
        }
    }
}

/// Records the exit status of the last top-level shell invocation.
pub fn set_shell_status_var(worker: &mut Worker, status: i32)
    ensures
        final(worker).shell_status == Some(status),
        final(worker).used_env_vars == old(worker).used_env_vars,
{
    worker.shell_status = Some(status);
}

/// The decimal digits of `n`.
pub open spec fn digits(n: nat) -> Seq<u8>
    decreases n,
{
    if n < 10 {
        seq![(48 + n) as u8]
    } else {
        digits(n / 10) + seq![(48 + n % 10) as u8]
    }
}

/// `n` in decimal, with a leading `-` when negative.
pub open spec fn decimal(n: int) -> Seq<u8> {
    if n < 0 {
        seq![45u8] + digits((-n) as nat)
    } else {
        digits(n as nat)
    }
}

fn push_digits(n: u32, out: &mut Vec<u8>)
    ensures
        final(out)@ == old(out)@ + digits(n as nat),
    decreases n,
{
    if n >= 10 {
        push_digits(n / 10, out);
    }
    out.push((48 + n % 10) as u8);
    assert(out@ =~= old(out)@ + digits(n as nat));
}

/// Appends `n` in decimal to `out`.
pub fn push_decimal(n: i32, out: &mut Vec<u8>)
    ensures
        final(out)@ == old(out)@ + decimal(n as int),
{
    if n < 0 {
        out.push(45u8);
        let m: i64 = -(n as i64);
        push_digits(m as u32, out);
        assert(out@ =~= old(out)@ + decimal(n as int));
    } else {
        push_digits(n as u32, out);
    }
}

/// The text of the shell status: its decimal form, or empty if none.
pub open spec fn shell_status_text(w: Worker) -> Seq<u8> {
    match w.shell_status {
        Some(s) => decimal(s as int),
        None => Seq::empty(),
    }
}

/// The context that expansion reads: the shared binding store, the global
/// scope, the symbol table, the worker, and the rule being built.
pub struct Evaluator {
    pub store: Vec<Variable>,
    pub globals: Vars,
    pub symtab: SymbolTable,
    pub worker: Worker,
    pub is_evaluating_command: bool,
    pub loc: Option<Loc>,
    pub target: Vec<u8>,
    pub inputs: Vec<Vec<u8>>,
    pub warnings: Vec<Deprecation>,
    /// How many deferred bindings one expansion may pass through; going
    /// deeper fails with `RecursionTooDeep`, which is how a binding that
    /// refers to itself is caught. With a limit of 0 every read of a
    /// deferred binding fails.
    pub depth_limit: usize,
}

/// The binding that `sym` resolves to in the global scope.
pub open spec fn resolve(ev: Evaluator, sym: Symbol) -> Option<Variable> {
    if ev.globals@.contains_key(sym) && ev.globals@[sym] < ev.store@.len() {
        Some(ev.store@[ev.globals@[sym] as int])
    } else {
        None
    }
}

/// What an automatic binding computes.
pub open spec fn auto_text(ev: Evaluator, a: AutoCommandVar) -> Seq<u8> {
    match a {
        AutoCommandVar::Target => ev.target@,
        AutoCommandVar::FirstInput => if ev.inputs@.len() > 0 {
            ev.inputs@[0]@
        } else {
            Seq::empty()
        },
    }
}

/// Whether the names listing shows `sym`: it is bound, not obsolete, and,
/// unless `all`, not function-like.
pub open spec fn listed(ev: Evaluator, sym: Symbol, all: bool) -> bool {
    match resolve(ev, sym) {
        Some(b) => !b.spec_obsolete() && (all || !b.spec_is_func()),
        None => false,
    }
}

/// The listed names among the first `n` symbols, in symbol order.
pub open spec fn listed_names(ev: Evaluator, all: bool, n: nat) -> Seq<Seq<u8>>
    decreases n,
{
    if n == 0 {
        Seq::empty()
    } else {
        let prev = listed_names(ev, all, (n - 1) as nat);
        if listed(ev, (n - 1) as Symbol, all) {
            prev.push(ev.symtab@[n - 1])
        } else {
            prev
        }
    }
}

/// Words joined by single spaces.
pub open spec fn join_words(ws: Seq<Seq<u8>>) -> Seq<u8>
    decreases ws.len(),
{
    if ws.len() == 0 {
        Seq::empty()
    } else if ws.len() == 1 {
        ws[0]
    } else {
        join_words(ws.drop_last()) + seq![32u8] + ws.last()
    }
}

/// The expansion of a text: its pieces, one after another. `fuel` bounds
/// how many deferred bindings may be passed through.
pub open spec fn expand(ev: Evaluator, ps: Seq<Piece>, fuel: nat) -> Result<Seq<u8>, EvalError>
    decreases fuel, ps.len() + 2,
{
    if ps.len() == 0 {
        Ok(Seq::empty())
    } else {
        match expand(ev, ps.drop_last(), fuel) {
            Err(e) => Err(e),
            Ok(a) => match piece_text(ev, ps.last(), fuel) {
                Err(e) => Err(e),
                Ok(b) => Ok(a + b),
            },
        }
    }
}

/// The expansion of one piece. An unbound name expands to nothing.
pub open spec fn piece_text(ev: Evaluator, p: Piece, fuel: nat) -> Result<Seq<u8>, EvalError>
    decreases fuel, 2nat,
{
    match p {
        Piece::Literal(t) => Ok(t@),
        Piece::Ref(sym) => ref_text(ev, sym, fuel),
        Piece::Call(sym) => ref_text(ev, sym, fuel),
    }
}

/// The expansion of a reference to `sym`.
pub open spec fn ref_text(ev: Evaluator, sym: Symbol, fuel: nat) -> Result<Seq<u8>, EvalError>
    decreases fuel, 1nat,
{
    match resolve(ev, sym) {
        None => Ok(Seq::empty()),
        Some(b) => if b.spec_obsolete() {
            Err(EvalError::Obsolete(sym))
        } else {
            binding_text(ev, b, fuel)
        },
    }
}

/// The full expansion of a binding, by flavor.
pub open spec fn binding_text(ev: Evaluator, b: Variable, fuel: nat) -> Result<
    Seq<u8>,
    EvalError,
>
    decreases fuel, 0nat,
{
    match b.value {
        InnerVar::Simple(s) => Ok(s@),
        InnerVar::Recursive { v, .. } => if fuel == 0 {
            Err(EvalError::RecursionTooDeep)
        } else {
            expand(ev, v.pieces@, (fuel - 1) as nat)
        },
        InnerVar::AutoCommand(_, a) => Ok(auto_text(ev, a)),
        InnerVar::ShellStatus => if ev.is_evaluating_command {
            Err(EvalError::ShellStatusInRule)
        } else {
            Ok(shell_status_text(ev.worker))
        },
        InnerVar::VariableNames { all, .. } => Ok(
            join_words(listed_names(ev, all, ev.symtab@.len())),
        ),
    }
}

/// Once a prefix of a text fails to expand, the whole text fails the same
/// way.
pub proof fn lemma_expand_prefix_err(ev: Evaluator, ps: Seq<Piece>, k: int, fuel: nat)
    requires
        0 <= k <= ps.len(),
        expand(ev, ps.take(k), fuel) is Err,
    ensures
        expand(ev, ps, fuel) == expand(ev, ps.take(k), fuel),
    decreases ps.len(),
{
    if k < ps.len() {
        assert(ps.drop_last().take(k) =~= ps.take(k));
        lemma_expand_prefix_err(ev, ps.drop_last(), k, fuel);
    } else {
        assert(ps.take(k) =~= ps);
    }
}

/// Appends the expansion of `ps` to `out`.
pub fn expand_into(ev: &Evaluator, ps: &Vec<Piece>, fuel: usize, out: &mut Vec<u8>) -> (r: Result<
    (),
    EvalError,
>)
    ensures
        match expand(*ev, ps@, fuel as nat) {
            Ok(t) => r is Ok && final(out)@ == old(out)@ + t,
            Err(e) => r == Err::<(), EvalError>(e),
        },
    decreases fuel, ps@.len() + 2,
{
    let ghost start = out@;
    let mut i: usize = 0;
    assert(ps@.take(0) =~= Seq::<Piece>::empty());
    while i < ps.len()
        invariant
            i <= ps@.len(),
            expand(*ev, ps@.take(i as int), fuel as nat) is Ok,
            out@ == start + expand(*ev, ps@.take(i as int), fuel as nat)->Ok_0,
        decreases ps@.len() - i,
    {
        assert(ps@.take(i + 1).drop_last() =~= ps@.take(i as int));
        assert(ps@.take(i + 1).last() == ps@[i as int]);
        match piece_into(ev, &ps[i], fuel, out) {
            Err(e) => {
                proof {
                    lemma_expand_prefix_err(*ev, ps@, i + 1, fuel as nat);
                }
                return Err(e);
            },
            Ok(()) => {},
        }
        i = i + 1;
        assert(out@ =~= start + expand(*ev, ps@.take(i as int), fuel as nat)->Ok_0);
    }
    assert(ps@.take(i as int) =~= ps@);
    Ok(())
}

/// Appends the expansion of one piece to `out`.
pub fn piece_into(ev: &Evaluator, p: &Piece, fuel: usize, out: &mut Vec<u8>) -> (r: Result<
    (),
    EvalError,
>)
    ensures
        match piece_text(*ev, *p, fuel as nat) {
            Ok(t) => r is Ok && final(out)@ == old(out)@ + t,
            Err(e) => r == Err::<(), EvalError>(e),
        },
    decreases fuel, 2nat,
{
    match p {
        Piece::Literal(t) => {
            push_bytes(out, t.as_slice());
            Ok(())
        },
        Piece::Ref(sym) => ref_into(ev, *sym, fuel, out),
        Piece::Call(sym) => ref_into(ev, *sym, fuel, out),
    }
}

/// Appends the expansion of a reference to `sym` to `out`.
pub fn ref_into(ev: &Evaluator, sym: Symbol, fuel: usize, out: &mut Vec<u8>) -> (r: Result<
    (),
    EvalError,
>)
    ensures
        match ref_text(*ev, sym, fuel as nat) {
            Ok(t) => r is Ok && final(out)@ == old(out)@ + t,
            Err(e) => r == Err::<(), EvalError>(e),
        },
    decreases fuel, 1nat,
{
    match ev.globals.peek(sym) {
        Some(id) => {
            if id < ev.store.len() {
                let b = &ev.store[id];
                if b.obsolete() {
                    Err(EvalError::Obsolete(sym))
                } else {
                    binding_into(ev, b, fuel, out)
                }
            } else {
                assert(out@ =~= old(out)@ + Seq::<u8>::empty());
                Ok(())
            }
        },
        None => {
            assert(out@ =~= old(out)@ + Seq::<u8>::empty());
            Ok(())
        },
    }
}

/// Appends the full expansion of a binding to `out`.
pub fn binding_into(ev: &Evaluator, b: &Variable, fuel: usize, out: &mut Vec<u8>) -> (r: Result<
    (),
    EvalError,
>)
    ensures
        match binding_text(*ev, *b, fuel as nat) {
            Ok(t) => r is Ok && final(out)@ == old(out)@ + t,
            Err(e) => r == Err::<(), EvalError>(e),
        },
        b.value is ShellStatus && ev.is_evaluating_command ==> final(out)@ == old(out)@,
    decreases fuel, 0nat,
{
    match &b.value {
        InnerVar::Simple(s) => {
            push_bytes(out, s.as_slice());
            Ok(())
        },
        InnerVar::Recursive { v, .. } => {
            if fuel == 0 {
                Err(EvalError::RecursionTooDeep)
            } else {
                expand_into(ev, &v.pieces, fuel - 1, out)
            }
        },
        InnerVar::AutoCommand(_, a) => {
            match a {
                AutoCommandVar::Target => push_bytes(out, ev.target.as_slice()),
                AutoCommandVar::FirstInput => {
                    if ev.inputs.len() > 0 {
                        push_bytes(out, ev.inputs[0].as_slice());
                    } else {
                        assert(out@ =~= old(out)@ + Seq::<u8>::empty());
                    }
                },
            }
            Ok(())
        },
        InnerVar::ShellStatus => {
            if ev.is_evaluating_command {
                Err(EvalError::ShellStatusInRule)
            } else {
                match ev.worker.shell_status {
                    Some(s) => push_decimal(s, out),
                    None => {
                        assert(out@ =~= old(out)@ + Seq::<u8>::empty());
                    },
                }
                Ok(())
            }
        },
        InnerVar::VariableNames { all, .. } => {
            write_names(ev, *all, out);
            Ok(())
        },
    }
}

/// Appends the listed names, separated by single spaces, to `out`.
fn write_names(ev: &Evaluator, all: bool, out: &mut Vec<u8>)
    ensures
        final(out)@ == old(out)@ + join_words(listed_names(*ev, all, ev.symtab@.len())),
{
    let ghost start = out@;
    let n = ev.symtab.len();
    let mut wrote = false;
    let mut i: usize = 0;
    assert(out@ =~= start + join_words(listed_names(*ev, all, 0)));
    while i < n
        invariant
            n == ev.symtab@.len(),
            i <= n,
            wrote == (listed_names(*ev, all, i as nat).len() > 0),
            out@ == start + join_words(listed_names(*ev, all, i as nat)),
        decreases n - i,
    {
        let ghost ws = listed_names(*ev, all, i as nat);
        let mut show = false;
        match ev.globals.peek(i) {
            Some(id) => {
                if id < ev.store.len() {
                    let b = &ev.store[id];
                    show = !b.obsolete() && (all || !b.is_func());
                }
            },
            None => {},
        }
        assert(show == listed(*ev, i, all));
        if show {
            let name = ev.symtab.name(i);
            assert(ws.push(name@).drop_last() =~= ws);
            if wrote {
                out.push(32u8);
            }
            push_bytes(out, name);
            assert(out@ =~= start + join_words(ws.push(name@)));
            wrote = true;
        }
        i = i + 1;
    }
}

/// The textual form of a binding, without expanding it: the bytes of a
/// Simple binding, the source of a deferred one, the status text, or the
/// listing's own name. An automatic binding has none.
pub open spec fn textual_form(b: Variable, sym: Symbol, w: Worker) -> Result<Seq<u8>, EvalError> {
    match b.value {
        InnerVar::Simple(s) => Ok(s@),
        InnerVar::Recursive { orig, .. } => Ok(orig@),
        InnerVar::AutoCommand(_, _) => Err(EvalError::ValueNotImplemented(sym)),
        InnerVar::ShellStatus => Ok(shell_status_text(w)),
        InnerVar::VariableNames { name, .. } => Ok(name@),
    }
}

impl Variable {
    /// Appends the full expansion of this binding to `out`.
    pub fn eval(&self, ev: &Evaluator, out: &mut Vec<u8>) -> (r: Result<(), EvalError>)
        ensures
            match binding_text(*ev, *self, ev.depth_limit as nat) {
                Ok(t) => r is Ok && final(out)@ == old(out)@ + t,
                Err(e) => r == Err::<(), EvalError>(e),
            },
            self.value is ShellStatus && ev.is_evaluating_command ==> final(out)@ == old(out)@,
    {
        binding_into(ev, self, ev.depth_limit, out)
    }

    /// The textual form of this binding; `sym` names an automatic one in
    /// the error.
    pub fn string(&self, sym: Symbol, worker: &Worker) -> (r: Result<Vec<u8>, EvalError>)
        ensures
            match textual_form(*self, sym, *worker) {
                Ok(t) => r is Ok && r->Ok_0@ == t,
                Err(e) => r == Err::<Vec<u8>, EvalError>(e),
            },
    {
        match &self.value {
            InnerVar::Simple(s) => Ok(crate::symtab::copy_bytes(s.as_slice())),
            InnerVar::Recursive { orig, .. } => Ok(crate::symtab::copy_bytes(orig.as_slice())),
            InnerVar::AutoCommand(_, _) => Err(EvalError::ValueNotImplemented(sym)),
            InnerVar::ShellStatus => {
                let mut out: Vec<u8> = Vec::new();
                match worker.shell_status {
                    Some(s) => push_decimal(s, &mut out),
                    None => {},
                }
                assert(out@ =~= shell_status_text(*worker));
                Ok(out)
            },
            InnerVar::VariableNames { name, .. } => Ok(crate::symtab::copy_bytes(name.as_slice())),
        }
    }

    /// A Simple binding holding the expansion of `v` now.
    pub fn with_simple_value(
        origin: VarOrigin,
        frame: Option<Frame>,
        loc: Option<Loc>,
        ev: &Evaluator,
        v: &Value,
    ) -> (r: Result<Variable, EvalError>)
        ensures
            match expand(*ev, v.pieces@, ev.depth_limit as nat) {
                Ok(t) => r is Ok && r->Ok_0.simple_text() == Some(t) && r->Ok_0.origin == origin
                    && r->Ok_0.loc == loc && r->Ok_0.definition == frame
                    && r->Ok_0.assign_op is None && r->Ok_0.visibility_prefix is None
                    && !r->Ok_0.readonly && r->Ok_0.obsolete is None && r->Ok_0.deprecated is None,
                Err(e) => r == Err::<Variable, EvalError>(e),
            },
    {
        let mut value: Vec<u8> = Vec::new();
        match expand_into(ev, &v.pieces, ev.depth_limit, &mut value) {
            Err(e) => Err(e),
            Ok(()) => {
                assert(value@ =~= expand(*ev, v.pieces@, ev.depth_limit as nat)->Ok_0);
                Ok(Variable::with_simple_string(value, origin, frame, loc))
            },
        }
    }
}

impl Vars {
    /// The binding of `sym`; one of environment origin is recorded as used
    /// by the worker.
    pub fn lookup(&self, sym: Symbol, store: &Vec<Variable>, worker: &mut Worker) -> (r: Option<
        VarId,
    >)
        ensures
            r == crate::scope::slot(self@, sym),
            final(worker).shell_status == old(worker).shell_status,
            forall|s: Symbol|
                #[trigger] final(worker).used_env_vars@.contains(s) <==> old(
                    worker,
                ).used_env_vars@.contains(s) || (s == sym && r is Some && r->Some_0 < store@.len()
                    && is_environment(store@[r->Some_0 as int].origin)),
    {
        let r = self.peek(sym);
        if let Some(id) = r {
            if id < store.len() {
                match store[id].origin() {
                    VarOrigin::Environment | VarOrigin::EnvironmentOverride => {
                        worker.record_env_use(sym);
                    },
                    _ => {},
                }
            }
        }
        r
    }
}

/// Whether reading `sym` gets past the visibility check and the read hook
/// and logs a deprecation warning.
pub open spec fn warns_on_read(ev: Evaluator, sym: Symbol) -> bool {
    match resolve(ev, sym) {
        None => false,
        Some(b) => {
            &&& match b.prefixes() {
                Some(p) => crate::var::path_allowed(crate::var::location_file(ev.loc), p),
                None => true,
            }
            &&& !b.spec_obsolete()
            &&& b.deprecated is Some
        },
    }
}

/// Origins read from the environment.
pub open spec fn is_environment(o: VarOrigin) -> bool {
    o == VarOrigin::Environment || o == VarOrigin::EnvironmentOverride
}

impl Evaluator {
    /// An evaluator with nothing bound, for a fresh worker.
    pub fn new(depth_limit: usize) -> (r: Evaluator)
        ensures
            r.store@.len() == 0,
            r.globals@ == Map::<Symbol, VarId>::empty(),
            r.symtab@.len() == 0,
            r.symtab.wf(),
            r.worker.shell_status is None,
            r.worker.used_env_vars@.len() == 0,
            !r.is_evaluating_command,
            r.warnings@.len() == 0,
            r.depth_limit == depth_limit,
            r.loc is None,
            r.target@.len() == 0,
            r.inputs@.len() == 0,
    {
        Evaluator {
            store: Vec::new(),
            globals: Vars::new(),
            symtab: SymbolTable::new(),
            worker: Worker::new(),
            is_evaluating_command: false,
            loc: None,
            target: Vec::new(),
            inputs: Vec::new(),
            warnings: Vec::new(),
            depth_limit,
        }
    }

    /// Adds a binding to the shared store; it is bound nowhere yet.
    pub fn add_binding(&mut self, v: Variable) -> (r: VarId)
        ensures
            r == old(self).store@.len(),
            final(self).store@ == old(self).store@.push(v),
            final(self).globals@ == old(self).globals@,
            final(self).symtab@ == old(self).symtab@,
            final(self).depth_limit == old(self).depth_limit,
    {
        let r = self.store.len();
        self.store.push(v);
        r
    }

    /// Reads `sym` from the global scope, as a reference in a makefile
    /// does: an unbound name reads as empty; otherwise the visibility check
    /// and the read hook run, then the binding is expanded.
    pub fn read_var(&mut self, sym: Symbol) -> (r: Result<Vec<u8>, EvalError>)
        ensures
            final(self).store == old(self).store,
            final(self).globals == old(self).globals,
            final(self).symtab == old(self).symtab,
            final(self).worker.shell_status == old(self).worker.shell_status,
            final(self).depth_limit == old(self).depth_limit,
            final(self).is_evaluating_command == old(self).is_evaluating_command,
            final(self).loc == old(self).loc,
            final(self).target == old(self).target,
            final(self).inputs == old(self).inputs,
            warns_on_read(*old(self), sym) ==> final(self).warnings@.len()
                == old(self).warnings@.len() + 1 && final(self).warnings@.drop_last()
                == old(self).warnings@ && final(self).warnings@.last().sym == sym
                && final(self).warnings@.last().message@ == resolve(
                *old(self),
                sym,
            )->Some_0.deprecated->Some_0@,
            !warns_on_read(*old(self), sym) ==> final(self).warnings@ == old(self).warnings@,
            forall|s: Symbol|
                #[trigger] final(self).worker.used_env_vars@.contains(s) <==> old(
                    self,
                ).worker.used_env_vars@.contains(s) || (s == sym && resolve(*old(self), sym) is Some
                    && is_environment(resolve(*old(self), sym)->Some_0.origin)),
            match resolve(*old(self), sym) {
                None => r is Ok && r->Ok_0@ == Seq::<u8>::empty(),
                Some(b) => match b.prefixes() {
                    Some(p) if !crate::var::path_allowed(
                        crate::var::location_file(old(self).loc),
                        p,
                    ) => r == Err::<Vec<u8>, EvalError>(EvalError::NotVisibleFrom(sym)),
                    _ => if b.spec_obsolete() {
                        r == Err::<Vec<u8>, EvalError>(EvalError::Obsolete(sym))
                    } else {
                        match binding_text(*final(self), b, old(self).depth_limit as nat) {
                            Ok(t) => r is Ok && r->Ok_0@ == t,
                            Err(e) => r == Err::<Vec<u8>, EvalError>(e),
                        }
                    },
                },
            },
    {
        let mut out: Vec<u8> = Vec::new();
        let id = match self.globals.lookup(sym, &self.store, &mut self.worker) {
            Some(id) => id,
            None => return Ok(out),
        };
        if id >= self.store.len() {
            return Ok(out);
        }
        let b = &self.store[id];
        match b.check_current_referencing_file(&self.loc, sym) {
            Err(e) => return Err(e),
            Ok(()) => {},
        }
        match b.used(&mut self.warnings, sym) {
            Err(e) => return Err(e),
            Ok(()) => {},
        }
        match b.eval(self, &mut out) {
            Err(e) => Err(e),
            Ok(()) => Ok(out),
        }
    }
}

/// Expansion distributes over concatenation: the expansion of `a + b` is
/// that of `a` followed by that of `b`.
pub proof fn lemma_expand_concat(ev: Evaluator, a: Seq<Piece>, b: Seq<Piece>, fuel: nat)
    requires
        expand(ev, a, fuel) is Ok,
        expand(ev, b, fuel) is Ok,
    ensures
        expand(ev, a + b, fuel) == Ok::<Seq<u8>, EvalError>(
            expand(ev, a, fuel)->Ok_0 + expand(ev, b, fuel)->Ok_0,
        ),
    decreases b.len(),
{
    if b.len() == 0 {
        assert(a + b =~= a);
        assert(expand(ev, a, fuel)->Ok_0 + expand(ev, b, fuel)->Ok_0 =~= expand(ev, a, fuel)->Ok_0);
    } else {
        assert((a + b).drop_last() =~= a + b.drop_last());
        assert((a + b).last() == b.last());
        lemma_expand_concat(ev, a, b.drop_last(), fuel);
        let x = expand(ev, a, fuel)->Ok_0;
        let y = expand(ev, b.drop_last(), fuel)->Ok_0;
        let z = piece_text(ev, b.last(), fuel)->Ok_0;
        assert(x + y + z =~= x + (y + z));
    }
}

/// Appending to a deferred binding keeps it deferred: whenever it is read,
/// it yields the expansion of the old text, a space, and the expansion of
/// the appended text, all against the context of that read.
pub proof fn lemma_deferred_append(
    ev: Evaluator,
    before: Seq<Piece>,
    appended: Seq<Piece>,
    after: Seq<Piece>,
    fuel: nat,
)
    requires
        crate::var::spaced_join(before, appended, after),
        expand(ev, before, fuel) is Ok,
        expand(ev, appended, fuel) is Ok,
    ensures
        expand(ev, after, fuel) == Ok::<Seq<u8>, EvalError>(
            expand(ev, before, fuel)->Ok_0 + seq![32u8] + expand(ev, appended, fuel)->Ok_0,
        ),
{
    let sp = seq![after[before.len() as int]];
    assert(after =~= before + sp + appended);
    assert(sp.drop_last() =~= Seq::<Piece>::empty());
    assert(expand(ev, sp, fuel) == Ok::<Seq<u8>, EvalError>(seq![32u8])) by {
        assert(expand(ev, sp.drop_last(), fuel) == Ok::<Seq<u8>, EvalError>(Seq::empty()));
        assert(sp.last() == after[before.len() as int]);
        assert(piece_text(ev, sp.last(), fuel) == Ok::<Seq<u8>, EvalError>(seq![32u8]));
        assert(Seq::<u8>::empty() + seq![32u8] =~= seq![32u8]);
    }
    lemma_expand_concat(ev, before, sp, fuel);
    lemma_expand_concat(ev, before + sp, appended, fuel);
}

/// A Simple binding reads the same in every context: its bytes were fixed
/// when it was made or appended to.
pub proof fn lemma_simple_read_is_fixed(ev1: Evaluator, ev2: Evaluator, b: Variable, fuel: nat)
    requires
        b.simple_text() is Some,
    ensures
        binding_text(ev1, b, fuel) == Ok::<Seq<u8>, EvalError>(b.simple_text()->Some_0),
        binding_text(ev1, b, fuel) == binding_text(ev2, b, fuel),
{
}

} // verus!
