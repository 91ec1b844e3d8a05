use vstd::prelude::*;

use crate::error::EvalError;
use crate::eval::{expand, expand_into, Evaluator};
use crate::symtab::Symbol;
use crate::value::{Loc, Piece, Value};

verus! {

/// The operator of an assignment.
#[derive(Debug, Clone, Copy, PartialEq, Eq, Structural)]
pub enum AssignOp {
    Eq,
    ColonEq,
    PlusEq,
    QuestionEq,
}

/// The directives that may stand before an assignment.
#[derive(Clone, Copy, Debug, PartialEq, Eq, Structural)]
pub struct AssignDirective {
    pub is_override: bool,
    pub export: bool,
}

/// The kind of a conditional.
#[derive(Debug, Clone, Copy, PartialEq, Eq, Structural)]
pub enum CondOp {
    Ifeq,
    Ifneq,
    Ifdef,
    Ifndef,
}

/// What separates a rule's targets from the rest of its line.
#[derive(Debug, Clone, Copy, PartialEq, Eq, Structural)]
pub enum RuleSep {
    Null,
    Semicolon,
    Eq,
    FinalEq,
}

/// A rule line: targets, separator, and the rest.
#[derive(Debug)]
pub struct RuleStmt {
    pub loc: Loc,
    pub orig: Vec<u8>,
    pub lhs: Value,
    pub sep: RuleSep,
    pub rhs: Option<Value>,
}

impl RuleStmt {
    pub fn new(loc: Loc, lhs: Value, sep: RuleSep, rhs: Option<Value>) -> (r: RuleStmt)
        ensures
            r.loc == loc,
            r.lhs == lhs,
            r.sep == sep,
            r.rhs == rhs,
            r.orig@.len() == 0,
    {
        RuleStmt { loc, orig: Vec::new(), lhs, sep, rhs }
    }
}

/// An assignment. The symbol of a literal left-hand side is cached after
/// its first resolution.
#[derive(Debug)]
pub struct AssignStmt {
    pub loc: Loc,
    pub orig: Vec<u8>,
    pub lhs: Value,
    pub rhs: Value,
    pub orig_rhs: Vec<u8>,
    pub op: AssignOp,
    pub directive: Option<AssignDirective>,
    pub is_final: bool,
    pub lhs_sym_cache: Option<Symbol>,
}

/// The name of a left-hand side that is a single literal piece.
pub open spec fn literal_name(lhs: Seq<Piece>) -> Option<Seq<u8>> {
    if lhs.len() == 1 && lhs[0] is Literal {
        Some(lhs[0]->Literal_0@)
    } else {
        None
    }
}

/// The name that a left-hand side resolves to: a literal as it stands,
/// anything else by expansion.
pub open spec fn lhs_name(lhs: Seq<Piece>, ev: Evaluator) -> Result<Seq<u8>, EvalError> {
    match literal_name(lhs) {
        Some(n) => Ok(n),
        None => expand(ev, lhs, ev.depth_limit as nat),
    }
}

impl AssignStmt {
    /// The cached symbol, if any, names the literal left-hand side in `t`.
    pub open spec fn cache_ok(&self, t: Seq<Seq<u8>>) -> bool {
        match self.lhs_sym_cache {
            Some(s) => literal_name(self.lhs.pieces@) is Some && s < t.len() && t[s as int]
                == literal_name(self.lhs.pieces@)->Some_0,
            None => true,
        }
    }

    pub fn new(
        loc: Loc,
        lhs: Value,
        rhs: Value,
        orig_rhs: Vec<u8>,
        op: AssignOp,
        directive: Option<AssignDirective>,
        is_final: bool,
    ) -> (r: AssignStmt)
        ensures
            r.loc == loc,
            r.lhs == lhs,
            r.rhs == rhs,
            r.orig_rhs == orig_rhs,
            r.op == op,
            r.directive == directive,
            r.is_final == is_final,
            r.orig@.len() == 0,
            forall|t: Seq<Seq<u8>>| #[trigger] r.cache_ok(t),
    {
        AssignStmt {
            loc,
            orig: Vec::new(),
            lhs,
            rhs,
            orig_rhs,
            op,
            directive,
            is_final,
            lhs_sym_cache: None,
        }
    }

    /// The symbol assigned to. A literal name is interned once and cached;
    /// a computed one is expanded and interned on every call. An empty name
    /// is an error.
    pub fn get_lhs_symbol(&mut self, ev: &mut Evaluator) -> (r: Result<Symbol, EvalError>)
        requires
            old(ev).symtab.wf(),
            old(self).cache_ok(old(ev).symtab@),
        ensures
            match lhs_name(old(self).lhs.pieces@, *old(ev)) {
                Err(e) => r == Err::<Symbol, EvalError>(e),
                Ok(n) => if n.len() == 0 {
                    r == Err::<Symbol, EvalError>(EvalError::EmptyVariableName)
                } else {
                    r is Ok && r->Ok_0 < final(ev).symtab@.len() && final(ev).symtab@[r->Ok_0 as int]
                        == n && (old(ev).symtab@.contains(n) ==> final(ev).symtab@ == old(ev).symtab@)
                },
            },
            final(ev).symtab.wf(),
            final(ev).symtab@.len() <= old(ev).symtab@.len() + 1,
            old(ev).symtab@.is_prefix_of(final(ev).symtab@),
            final(self).cache_ok(final(ev).symtab@),
            final(self).lhs == old(self).lhs,
            final(ev).store == old(ev).store,
            final(ev).globals == old(ev).globals,
            final(ev).worker == old(ev).worker,
            final(ev).depth_limit == old(ev).depth_limit,
            final(ev).is_evaluating_command == old(ev).is_evaluating_command,
            final(ev).loc == old(ev).loc,
            final(ev).target == old(ev).target,
            final(ev).inputs == old(ev).inputs,
            final(ev).warnings == old(ev).warnings,
    {
        if self.lhs.pieces.len() == 1 {
            if let Piece::Literal(v) = &self.lhs.pieces[0] {
                if v.len() == 0 {
                    return Err(EvalError::EmptyVariableName);
                }
                match self.lhs_sym_cache {
                    Some(s) => {
                        assert(old(ev).symtab@.is_prefix_of(ev.symtab@));
                        return Ok(s);
                    },
                    None => {
                        let s = ev.symtab.intern(v.as_slice());
                        self.lhs_sym_cache = Some(s);
                        return Ok(s);
                    },
                }
            }
        }
        let mut buf: Vec<u8> = Vec::new();
        match expand_into(ev, &self.lhs.pieces, ev.depth_limit, &mut buf) {
            Err(e) => return Err(e),
            Ok(()) => {},
        }
        assert(buf@ =~= expand(*old(ev), old(self).lhs.pieces@, old(ev).depth_limit as nat)->Ok_0);
        if buf.len() == 0 {
            return Err(EvalError::EmptyVariableName);
        }
        let s = ev.symtab.intern(buf.as_slice());
        Ok(s)
    }
}

/// A command line of a rule: its source and the text to expand.
#[derive(Debug)]
pub struct CommandStmt {
    pub loc: Loc,
    pub orig: Vec<u8>,
    pub expr: Value,
}

impl CommandStmt {
    pub fn new(loc: Loc, orig: Vec<u8>, expr: Value) -> (r: CommandStmt)
        ensures
            r.loc == loc,
            r.orig == orig,
            r.expr == expr,
    {
        CommandStmt { loc, orig, expr }
    }
}

/// A conditional with the statements of its two branches, in order.
#[derive(Debug)]
pub struct IfStmt {
    pub loc: Loc,
    pub orig: Vec<u8>,
    pub op: CondOp,
    pub lhs: Value,
    pub rhs: Option<Value>,
    pub true_stmts: Vec<Statement>,
    pub false_stmts: Vec<Statement>,
}

impl IfStmt {
    /// A conditional whose branches are still empty.
    pub fn new(loc: Loc, op: CondOp, lhs: Value, rhs: Option<Value>) -> (r: IfStmt)
        ensures
            r.loc == loc,
            r.op == op,
            r.lhs == lhs,
            r.rhs == rhs,
            r.true_stmts@.len() == 0,
            r.false_stmts@.len() == 0,
            r.orig@.len() == 0,
    {
        IfStmt {
            loc,
            orig: Vec::new(),
            op,
            lhs,
            rhs,
            true_stmts: Vec::new(),
            false_stmts: Vec::new(),
        }
    }
}

/// An include of one or more files.
#[derive(Debug)]
pub struct IncludeStmt {
    pub loc: Loc,
    pub orig: Vec<u8>,
    pub expr: Value,
    pub should_exist: bool,
}

impl IncludeStmt {
    pub fn new(loc: Loc, expr: Value, should_exist: bool) -> (r: IncludeStmt)
        ensures
            r.loc == loc,
            r.expr == expr,
            r.should_exist == should_exist,
            r.orig@.len() == 0,
    {
        IncludeStmt { loc, orig: Vec::new(), expr, should_exist }
    }
}

/// An export or unexport of variables.
#[derive(Debug)]
pub struct ExportStmt {
    pub loc: Loc,
    pub orig: Vec<u8>,
    pub expr: Value,
    pub is_export: bool,
}

impl ExportStmt {
    pub fn new(loc: Loc, expr: Value, is_export: bool) -> (r: ExportStmt)
        ensures
            r.loc == loc,
            r.expr == expr,
            r.is_export == is_export,
            r.orig@.len() == 0,
    {
        ExportStmt { loc, orig: Vec::new(), expr, is_export }
    }
}

/// A top-level statement of a makefile.
#[derive(Debug)]
pub enum Statement {
    Rule(RuleStmt),
    Assign(AssignStmt),
    Command(CommandStmt),
    If(IfStmt),
    Include(IncludeStmt),
    Export(ExportStmt),
}

impl Statement {
    /// Where the statement stands in its file.
    pub fn loc(&self) -> (r: &Loc)
        ensures
            *r == match self {
                Statement::Rule(s) => s.loc,
                Statement::Assign(s) => s.loc,
                Statement::Command(s) => s.loc,
                Statement::If(s) => s.loc,
                Statement::Include(s) => s.loc,
                Statement::Export(s) => s.loc,
            },
    {
        match self {
            Statement::Rule(s) => &s.loc,
            Statement::Assign(s) => &s.loc,
            Statement::Command(s) => &s.loc,
            Statement::If(s) => &s.loc,
            Statement::Include(s) => &s.loc,
            Statement::Export(s) => &s.loc,
        }
    }

    /// The statement's source text, for diagnostics.
    pub fn orig(&self) -> (r: &Vec<u8>)
        ensures
            *r == match self {
                Statement::Rule(s) => s.orig,
                Statement::Assign(s) => s.orig,
                Statement::Command(s) => s.orig,
                Statement::If(s) => s.orig,
                Statement::Include(s) => s.orig,
                Statement::Export(s) => s.orig,
            },
    {
        match self {
            Statement::Rule(s) => &s.orig,
            Statement::Assign(s) => &s.orig,
            Statement::Command(s) => &s.orig,
            Statement::If(s) => &s.orig,
            Statement::Include(s) => &s.orig,
            Statement::Export(s) => &s.orig,
        }
    }
}

/// The evaluator's entry point for each kind of statement. Evaluating a
/// statement mutates the evaluator's state and either succeeds or fails.
pub trait StatementEvaluator {
    fn eval_rule(&mut self, s: &RuleStmt) -> Result<(), EvalError>;

    fn eval_assign(&mut self, s: &mut AssignStmt) -> Result<(), EvalError>;

    fn eval_command(&mut self, s: &CommandStmt) -> Result<(), EvalError>;

    fn eval_if(&mut self, s: &mut IfStmt) -> Result<(), EvalError>;

    fn eval_include(&mut self, s: &IncludeStmt) -> Result<(), EvalError>;

    fn eval_export(&mut self, s: &ExportStmt) -> Result<(), EvalError>;
}

impl Statement {
    /// Hands the statement to the evaluator's entry point for its kind.
    pub fn eval<E: StatementEvaluator>(&mut self, ev: &mut E) -> Result<(), EvalError> {
        match self {
            Statement::Rule(s) => ev.eval_rule(s),
            Statement::Assign(s) => ev.eval_assign(s),
            Statement::Command(s) => ev.eval_command(s),
            Statement::If(s) => ev.eval_if(s),
            Statement::Include(s) => ev.eval_include(s),
            Statement::Export(s) => ev.eval_export(s),
        }
    }
}

} // verus!
