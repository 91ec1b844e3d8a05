use vstd::prelude::*;

use crate::symtab::Symbol;

verus! {

/// A fatal error: evaluation of the current unit stops.
#[derive(Debug, PartialEq, Eq, Clone, Copy, Structural)]
pub enum EvalError {
    /// A left-hand side resolved to the empty name.
    EmptyVariableName,
    /// A binding marked obsolete was read.
    Obsolete(Symbol),
    /// Append on a flavor that cannot grow; an automatic binding names
    /// its symbol.
    AppendNotSupported(Option<Symbol>),
    /// An assignment met a binding of automatic origin.
    OverrideAutomatic,
    /// A second, different set of visibility prefixes was registered.
    VisibilityConflict(Symbol),
    /// A restricted binding was read from a file outside its prefixes.
    NotVisibleFrom(Symbol),
    /// The shell status was read while a rule's commands were built.
    ShellStatusInRule,
    /// The textual form of an automatic binding was asked for.
    ValueNotImplemented(Symbol),
    /// Deferred expansion went deeper than the evaluator allows.
    RecursionTooDeep,
}

} // verus!
