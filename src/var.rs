use vstd::prelude::*;

use crate::error::EvalError;
use crate::origin::VarOrigin;
use crate::stmt::AssignOp;
use crate::symtab::{bytes_eq, Symbol};
use crate::value::{Frame, Loc, Piece, Value};

verus! {

/// What an automatic binding computes from the rule being built.
#[derive(Debug, Clone, Copy, PartialEq, Eq, Structural)]
pub enum AutoCommandVar {
    /// `$@`: the target.
    Target,
    /// `$<`: the first prerequisite.
    FirstInput,
}

/// The payload of a binding; its flavor.
#[derive(Debug)]
pub enum InnerVar {
    Simple(Vec<u8>),
    Recursive { v: Value, orig: Vec<u8> },
    AutoCommand(Symbol, AutoCommandVar),
    ShellStatus,
    VariableNames { name: Vec<u8>, all: bool },
}

/// A warning that evaluation logged and went on.
#[derive(Debug)]
pub struct Deprecation {
    pub sym: Symbol,
    pub message: Vec<u8>,
}

/// One named value: its payload, provenance and protection flags.
#[derive(Debug)]
pub struct Variable {
    pub loc: Option<Loc>,
    pub definition: Option<Frame>,
    pub origin: VarOrigin,
    pub assign_op: Option<AssignOp>,
    pub readonly: bool,
    pub deprecated: Option<Vec<u8>>,
    pub obsolete: Option<Vec<u8>>,
    pub visibility_prefix: Option<Vec<Vec<u8>>>,
    pub value: InnerVar,
}

/// The byte strings of a list, as values.
pub open spec fn byte_lists(v: Seq<Vec<u8>>) -> Seq<Seq<u8>> {
    v.map_values(|b: Vec<u8>| b@)
}

/// Whether two lists of byte strings hold the same strings.
pub fn byte_lists_eq(a: &Vec<Vec<u8>>, b: &Vec<Vec<u8>>) -> (r: bool)
    ensures
        r == (byte_lists(a@) == byte_lists(b@)),
{
    if a.len() != b.len() {
        assert(byte_lists(a@).len() != byte_lists(b@).len());
        return false;
    }
    let mut i: usize = 0;
    while i < a.len()
        invariant
            a@.len() == b@.len(),
            i <= a@.len(),
            forall|j: int| 0 <= j < i ==> a@[j]@ == b@[j]@,
        decreases a@.len() - i,
    {
        if !bytes_eq(a[i].as_slice(), b[i].as_slice()) {
            assert(byte_lists(a@)[i as int] != byte_lists(b@)[i as int]);
            return false;
        }
        i = i + 1;
    }
    assert(byte_lists(a@) =~= byte_lists(b@));
    true
}

/// `path` lies under `prefix`: it starts with it, and the next byte, if
/// any, is a `/`.
pub open spec fn path_has_prefix(path: Seq<u8>, prefix: Seq<u8>) -> bool {
    &&& prefix.len() <= path.len()
    &&& path.subrange(0, prefix.len() as int) == prefix
    &&& (path.len() == prefix.len() || path[prefix.len() as int] == 47u8)
}

pub fn has_path_prefix(path: &[u8], prefix: &[u8]) -> (r: bool)
    ensures
        r == path_has_prefix(path@, prefix@),
{
    if prefix.len() > path.len() {
        return false;
    }
    let mut i: usize = 0;
    while i < prefix.len()
        invariant
            prefix@.len() <= path@.len(),
            i <= prefix@.len(),
            forall|j: int| 0 <= j < i ==> path@[j] == prefix@[j],
        decreases prefix@.len() - i,
    {
        if path[i] != prefix[i] {
            assert(path@.subrange(0, prefix@.len() as int)[i as int] != prefix@[i as int]);
            return false;
        }
        i = i + 1;
    }
    assert(path@.subrange(0, prefix@.len() as int) =~= prefix@);
    prefix.len() == path.len() || path[prefix.len()] == 47u8
}

/// Whether some prefix of the list lets `path` through.
pub open spec fn path_allowed(path: Seq<u8>, prefixes: Seq<Seq<u8>>) -> bool {
    exists|i: int| 0 <= i < prefixes.len() && path_has_prefix(path, prefixes[i])
}

impl Variable {
    pub open spec fn spec_origin(&self) -> VarOrigin {
        self.origin
    }

    pub open spec fn spec_obsolete(&self) -> bool {
        self.obsolete is Some
    }

    /// The bytes of a Simple binding; `None` for every other flavor.
    pub open spec fn simple_text(&self) -> Option<Seq<u8>> {
        match self.value {
            InnerVar::Simple(s) => Some(s@),
            _ => None,
        }
    }

    /// The unexpanded pieces of a Recursive binding; `None` otherwise.
    pub open spec fn deferred(&self) -> Option<Seq<Piece>> {
        match self.value {
            InnerVar::Recursive { v, .. } => Some(v.pieces@),
            _ => None,
        }
    }

    /// The source text of a Recursive binding.
    pub open spec fn deferred_source(&self) -> Seq<u8> {
        match self.value {
            InnerVar::Recursive { orig, .. } => orig@,
            _ => Seq::empty(),
        }
    }

    pub open spec fn is_auto_command(&self) -> bool {
        self.value is AutoCommand
    }

    pub open spec fn is_shell_status(&self) -> bool {
        self.value is ShellStatus
    }

    /// The listing name and mode of a VariableNames binding.
    pub open spec fn names_listing(&self) -> Option<(Seq<u8>, bool)> {
        match self.value {
            InnerVar::VariableNames { name, all } => Some((name@, all)),
            _ => None,
        }
    }

    /// The registered visibility prefixes.
    pub open spec fn prefixes(&self) -> Option<Seq<Seq<u8>>> {
        match self.visibility_prefix {
            Some(p) => Some(byte_lists(p@)),
            None => None,
        }
    }

    /// Every field but the payload and the defining frame.
    pub open spec fn same_flags(&self, other: &Variable) -> bool {
        &&& self.origin == other.origin
        &&& self.readonly == other.readonly
        &&& self.assign_op == other.assign_op
        &&& self.deprecated == other.deprecated
        &&& self.obsolete == other.obsolete
        &&& self.visibility_prefix == other.visibility_prefix
        &&& self.loc == other.loc
    }

    /// The error of an append on a flavor that cannot grow.
    pub open spec fn append_error(&self) -> EvalError {
        match self.value {
            InnerVar::AutoCommand(sym, _) => EvalError::AppendNotSupported(Some(sym)),
            _ => EvalError::AppendNotSupported(None),
        }
    }

    /// Whether reading requires the call machinery.
    pub open spec fn spec_is_func(&self) -> bool {
        match self.value {
            InnerVar::Simple(_) => false,
            InnerVar::Recursive { v, .. } => crate::value::has_call(v.pieces@),
            InnerVar::AutoCommand(_, _) => true,
            InnerVar::ShellStatus => false,
            InnerVar::VariableNames { .. } => false,
        }
    }

    /// The fields that every factory starts from.
    fn fresh(origin: VarOrigin, frame: Option<Frame>, loc: Option<Loc>, value: InnerVar) -> (r:
        Variable)
        ensures
            r.origin == origin,
            r.value == value,
            r.loc == loc,
            r.definition == frame,
            !r.readonly,
            r.assign_op is None,
            r.deprecated is None,
            r.obsolete is None,
            r.visibility_prefix is None,
    {
        Variable {
            loc,
            definition: frame,
            origin,
            assign_op: None,
            readonly: false,
            deprecated: None,
            obsolete: None,
            visibility_prefix: None,
            value,
        }
    }

    pub fn loc(&self) -> (r: &Option<Loc>)
        ensures
            *r == self.loc,
    {
        &self.loc
    }

    pub fn origin(&self) -> (r: VarOrigin)
        ensures
            r == self.spec_origin(),
    {
        self.origin
    }

    pub fn definition(&self) -> (r: &Option<Frame>)
        ensures
            *r == self.definition,
    {
        &self.definition
    }

    pub fn obsolete(&self) -> (r: bool)
        ensures
            r == self.spec_obsolete(),
    {
        self.obsolete.is_some()
    }

    pub fn set_obsolete(&mut self, message: Vec<u8>)
        ensures
            final(self).obsolete is Some,
            final(self).obsolete->Some_0@ == message@,
            final(self).value == old(self).value,
            final(self).loc == old(self).loc,
            final(self).definition == old(self).definition,
            final(self).assign_op == old(self).assign_op,
            final(self).origin == old(self).origin,
            final(self).readonly == old(self).readonly,
            final(self).deprecated == old(self).deprecated,
            final(self).visibility_prefix == old(self).visibility_prefix,
    {
        self.obsolete = Some(message);
    }

    /// The tag that `$(flavor ...)` reports.
    pub fn flavor(&self) -> (r: &'static str)
        ensures
            r@ == match self.value {
                InnerVar::Simple(_) => "simple"@,
                InnerVar::Recursive { .. } => "recursive"@,
                InnerVar::AutoCommand(_, _) => "undefined"@,
                InnerVar::ShellStatus => "simple"@,
                InnerVar::VariableNames { .. } => "kati_variable_names"@,
            },
    {
        match &self.value {
            InnerVar::Simple(_) => "simple",
            InnerVar::Recursive { .. } => "recursive",
            InnerVar::AutoCommand(_, _) => "undefined",
            InnerVar::ShellStatus => "simple",
            InnerVar::VariableNames { .. } => "kati_variable_names",
        }
    }

    /// The read hook: an obsolete binding cannot be read; a deprecated one
    /// logs one warning per read.
    pub fn used(&self, warnings: &mut Vec<Deprecation>, sym: Symbol) -> (r: Result<(), EvalError>)
        ensures
            self.spec_obsolete() ==> r == Err::<(), EvalError>(EvalError::Obsolete(sym))
                && final(warnings)@ == old(warnings)@,
            !self.spec_obsolete() ==> r is Ok,
            !self.spec_obsolete() && self.deprecated is Some ==> final(warnings)@.len()
                == old(warnings)@.len() + 1 && final(warnings)@.drop_last() == old(warnings)@
                && final(warnings)@.last().sym == sym
                && final(warnings)@.last().message@ == self.deprecated->Some_0@,
            !self.spec_obsolete() && self.deprecated is None ==> final(warnings)@
                == old(warnings)@,
    {
        if self.obsolete.is_some() {
            return Err(EvalError::Obsolete(sym));
        }
        if let Some(d) = &self.deprecated {
            warnings.push(Deprecation { sym, message: crate::symtab::copy_bytes(d.as_slice()) });
            assert(warnings@.drop_last() =~= old(warnings)@);
        }
        Ok(())
    }

    /// Registers the files allowed to read this binding; a second,
    /// different set is a conflict.
    pub fn set_visibility_prefix(&mut self, prefixes: Vec<Vec<u8>>, name: Symbol) -> (r: Result<
        (),
        EvalError,
    >)
        ensures
            old(self).prefixes() is None ==> r is Ok && final(self).prefixes() == Some(
                byte_lists(prefixes@),
            ),
            old(self).prefixes() == Some(byte_lists(prefixes@)) ==> r is Ok && final(self).prefixes() == old(self).prefixes(),
            old(self).prefixes() is Some && old(self).prefixes() != Some(byte_lists(prefixes@))
                ==> r == Err::<(), EvalError>(EvalError::VisibilityConflict(name)) && final(self).prefixes() == old(self).prefixes(),
            final(self).value == old(self).value,
            final(self).origin == old(self).origin,
            final(self).readonly == old(self).readonly,
            final(self).obsolete == old(self).obsolete,
            final(self).loc == old(self).loc,
            final(self).definition == old(self).definition,
            final(self).assign_op == old(self).assign_op,
            final(self).deprecated == old(self).deprecated,
    {
        match &self.visibility_prefix {
            None => {
                self.visibility_prefix = Some(prefixes);
                Ok(())
            },
            Some(p) => {
                if byte_lists_eq(p, &prefixes) {
                    Ok(())
                } else {
                    Err(EvalError::VisibilityConflict(name))
                }
            },
        }
    }

    /// Whether reading requires the call machinery: true for automatic
    /// bindings and for deferred ones that contain a call.
    pub fn is_func(&self) -> (r: bool)
        ensures
            r == self.spec_is_func(),
    {
        match &self.value {
            InnerVar::Simple(_) => false,
            InnerVar::Recursive { v, .. } => v.is_func(),
            InnerVar::AutoCommand(_, _) => true,
            InnerVar::ShellStatus => false,
            InnerVar::VariableNames { .. } => false,
        }
    }

    /// True only for Simple bindings.
    pub fn immediate_eval(&self) -> (r: bool)
        ensures
            r == (self.value is Simple),
    {
        matches!(&self.value, InnerVar::Simple(_))
    }

    /// Appends an unexpanded text, with a space before it, to a deferred
    /// binding; nothing is expanded now.
    pub fn append_var(&mut self, v: Value, frame: Frame) -> (r: Result<(), EvalError>)
        requires
            !(old(self).value is Simple),
        ensures
            old(self).deferred() is Some ==> r is Ok && final(self).deferred() is Some
                && spaced_join(old(self).deferred().unwrap(), v.pieces@, final(self).deferred().unwrap()),
            old(self).deferred() is None ==> r == Err::<(), EvalError>(old(self).append_error())
                && final(self).value == old(self).value,
            final(self).deferred_source() == old(self).deferred_source(),
            final(self).same_flags(&old(self)),
            old(self).deferred() is Some ==> final(self).definition == Some(frame),
            r is Err ==> final(self).definition == old(self).definition,
    {
        match &mut self.value {
            InnerVar::Recursive { v: prev, .. } => {
                let ghost a = prev.pieces@;
                prev.pieces.push(Piece::Literal(space()));
                let mut rest = v.pieces;
                prev.pieces.append(&mut rest);
                assert(prev.pieces@.subrange(0, a.len() as int) =~= a);
                assert(prev.pieces@.subrange(a.len() + 1int, prev.pieces@.len() as int) =~= v.pieces@);
                self.definition = Some(frame);
                Ok(())
            },
            InnerVar::AutoCommand(sym, _) => Err(EvalError::AppendNotSupported(Some(*sym))),
            _ => Err(EvalError::AppendNotSupported(None)),
        }
    }

    /// Appends expanded bytes, with a space before them: to the stored
    /// bytes of a Simple binding, as a literal piece to a deferred one.
    pub fn append_str(&mut self, buf: &[u8], frame: Frame) -> (r: Result<(), EvalError>)
        ensures
            old(self).simple_text() is Some ==> r is Ok && final(self).simple_text() == Some(
                old(self).simple_text().unwrap() + seq![32u8] + buf@,
            ),
            old(self).deferred() is Some ==> r is Ok && final(self).deferred() is Some
                && spaced_join_text(old(self).deferred().unwrap(), buf@, final(self).deferred().unwrap()),
            old(self).simple_text() is None && old(self).deferred() is None ==> r == Err::<
                (),
                EvalError,
            >(old(self).append_error()) && final(self).value == old(self).value,
            final(self).deferred_source() == old(self).deferred_source(),
            final(self).same_flags(&old(self)),
            old(self).simple_text() is Some || old(self).deferred() is Some ==> final(self).definition == Some(frame),
            r is Err ==> final(self).definition == old(self).definition,
    {
        match &mut self.value {
            InnerVar::Simple(s) => {
                s.push(32u8);
                let mut i: usize = 0;
                let ghost start = s@;
                while i < buf.len()
                    invariant
                        i <= buf@.len(),
                        s@ == start + buf@.subrange(0, i as int),
                    decreases buf@.len() - i,
                {
                    s.push(buf[i]);
                    i = i + 1;
                    assert(s@ =~= start + buf@.subrange(0, i as int));
                }
                assert(buf@.subrange(0, buf@.len() as int) =~= buf@);
                self.definition = Some(frame);
                Ok(())
            },
            InnerVar::Recursive { v: prev, .. } => {
                let ghost a = prev.pieces@;
                prev.pieces.push(Piece::Literal(space()));
                prev.pieces.push(Piece::Literal(crate::symtab::copy_bytes(buf)));
                assert(prev.pieces@.subrange(0, a.len() as int) =~= a);
                self.definition = Some(frame);
                Ok(())
            },
            InnerVar::AutoCommand(sym, _) => Err(EvalError::AppendNotSupported(Some(*sym))),
            _ => Err(EvalError::AppendNotSupported(None)),
        }
    }
}

/// A one-byte text holding a space.
fn space() -> (r: Vec<u8>)
    ensures
        r@ == seq![32u8],
{
    let mut r: Vec<u8> = Vec::new();
    r.push(32u8);
    assert(r@ =~= seq![32u8]);
    r
}

impl Variable {
    /// An empty Simple binding.
    pub fn new_simple(origin: VarOrigin, frame: Option<Frame>, loc: Option<Loc>) -> (r: Variable)
        ensures
            r.simple_text() == Some(Seq::<u8>::empty()),
            r.origin == origin,
            r.loc == loc,
            r.definition == frame,
            r.assign_op is None,
            !r.readonly,
            r.deprecated is None,
            r.obsolete is None,
            r.visibility_prefix is None,
    {
        let r = Variable::fresh(origin, frame, loc, InnerVar::Simple(Vec::new()));
        assert(r.simple_text().unwrap() =~= Seq::<u8>::empty());
        r
    }

    /// A Simple binding holding `value`.
    pub fn with_simple_string(
        value: Vec<u8>,
        origin: VarOrigin,
        frame: Option<Frame>,
        loc: Option<Loc>,
    ) -> (r: Variable)
        ensures
            r.simple_text() == Some(value@),
            r.origin == origin,
            r.loc == loc,
            r.definition == frame,
            r.assign_op is None,
            !r.readonly,
            r.deprecated is None,
            r.obsolete is None,
            r.visibility_prefix is None,
    {
        Variable::fresh(origin, frame, loc, InnerVar::Simple(value))
    }

    /// A deferred binding: `v` is expanded on every read; `orig` is its
    /// source text.
    pub fn new_recursive(
        v: Value,
        origin: VarOrigin,
        frame: Option<Frame>,
        loc: Option<Loc>,
        orig: Vec<u8>,
    ) -> (r: Variable)
        ensures
            r.deferred() == Some(v.pieces@),
            r.deferred_source() == orig@,
            r.origin == origin,
            r.loc == loc,
            r.definition == frame,
            r.assign_op is None,
            !r.readonly,
            r.deprecated is None,
            r.obsolete is None,
            r.visibility_prefix is None,
    {
        Variable::fresh(origin, frame, loc, InnerVar::Recursive { v, orig })
    }

    /// An automatic binding, computed from the rule being built.
    pub fn new_autocommand(sym: Symbol, a: AutoCommandVar) -> (r: Variable)
        ensures
            r.value == InnerVar::AutoCommand(sym, a),
            r.origin == VarOrigin::Automatic,
            r.loc is None,
            r.definition is None,
            r.assign_op is None,
            !r.readonly,
            r.deprecated is None,
            r.obsolete is None,
            r.visibility_prefix is None,
    {
        Variable::fresh(VarOrigin::Automatic, None, None, InnerVar::AutoCommand(sym, a))
    }

    /// The binding of the last top-level shell status: readonly.
    pub fn new_shell_status_var() -> (r: Variable)
        ensures
            r.value is ShellStatus,
            r.origin == VarOrigin::Override,
            r.loc is None,
            r.definition is None,
            r.readonly,
            r.assign_op == Some(AssignOp::ColonEq),
            r.deprecated is None,
            r.obsolete is None,
            r.visibility_prefix is None,
    {
        let mut r = Variable::fresh(VarOrigin::Override, None, None, InnerVar::ShellStatus);
        r.assign_op = Some(AssignOp::ColonEq);
        r.readonly = true;
        r
    }

    /// The binding that lists the known names: readonly.
    pub fn new_variable_names(name: &[u8], all: bool) -> (r: Variable)
        ensures
            r.names_listing() == Some((name@, all)),
            r.origin == VarOrigin::Override,
            r.loc is None,
            r.definition is None,
            r.readonly,
            r.assign_op == Some(AssignOp::ColonEq),
            r.deprecated is None,
            r.obsolete is None,
            r.visibility_prefix is None,
    {
        let value = InnerVar::VariableNames { name: crate::symtab::copy_bytes(name), all };
        let mut r = Variable::fresh(VarOrigin::Override, None, None, value);
        r.assign_op = Some(AssignOp::ColonEq);
        r.readonly = true;
        r
    }

    /// Fails unless the file at `loc` may read this binding: with prefixes
    /// registered, the file name must lie under one of them. No location
    /// counts as an empty file name.
    pub fn check_current_referencing_file(&self, loc: &Option<Loc>, sym: Symbol) -> (r: Result<
        (),
        EvalError,
    >)
        ensures
            r == match self.prefixes() {
                None => Ok::<(), EvalError>(()),
                Some(p) => if path_allowed(location_file(*loc), p) {
                    Ok(())
                } else {
                    Err(EvalError::NotVisibleFrom(sym))
                },
            },
    {
        if self.visibility_prefix.is_none() {
            return Ok(());
        }
        let prefixes = self.visibility_prefix.as_ref().unwrap();
        assert(self.visibility_prefix == Some(*prefixes));
        let empty: Vec<u8> = Vec::new();
        let filename: &[u8] = match loc {
            Some(l) => l.filename.as_slice(),
            None => empty.as_slice(),
        };
        let ghost ps = byte_lists(prefixes@);
        let mut i: usize = 0;
        while i < prefixes.len()
            invariant
                i <= prefixes@.len(),
                ps == byte_lists(prefixes@),
                self.prefixes() == Some(ps),
                filename@ == location_file(*loc),
                forall|j: int| 0 <= j < i ==> !path_has_prefix(filename@, ps[j]),
            decreases prefixes@.len() - i,
        {
            if has_path_prefix(filename, prefixes[i].as_slice()) {
                assert(path_has_prefix(filename@, ps[i as int]));
                assert(ps.len() == prefixes@.len());
                assert(path_allowed(filename@, ps));
                return Ok(());
            }
            i = i + 1;
        }
        Err(EvalError::NotVisibleFrom(sym))
    }
}

/// The file name of a location; empty where there is none.
pub open spec fn location_file(loc: Option<Loc>) -> Seq<u8> {
    match loc {
        Some(l) => l.filename@,
        None => Seq::empty(),
    }
}

/// `r` is `a`, then a literal space, then `b`.
pub open spec fn spaced_join(a: Seq<Piece>, b: Seq<Piece>, r: Seq<Piece>) -> bool {
    &&& r.len() == a.len() + 1 + b.len()
    &&& r.subrange(0, a.len() as int) == a
    &&& r[a.len() as int] is Literal
    &&& r[a.len() as int]->Literal_0@ == seq![32u8]
    &&& r.subrange(a.len() + 1int, r.len() as int) == b
}

/// `r` is `a`, then a literal space, then the literal text `t`.
pub open spec fn spaced_join_text(a: Seq<Piece>, t: Seq<u8>, r: Seq<Piece>) -> bool {
    &&& r.len() == a.len() + 2
    &&& r.subrange(0, a.len() as int) == a
    &&& r[a.len() as int] is Literal
    &&& r[a.len() as int]->Literal_0@ == seq![32u8]
    &&& r[a.len() + 1int] is Literal
    &&& r[a.len() + 1int]->Literal_0@ == t
}

} // verus!
