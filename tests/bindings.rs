use kati::error::EvalError;
use kati::eval::{set_shell_status_var, Evaluator};
use kati::origin::{get_origin_str, VarOrigin};
use kati::scope::{ScopedVar, Vars};
use kati::value::{Frame, Loc, Piece, Value};
use kati::var::{AutoCommandVar, Variable};

fn frame() -> Frame {
    Frame { name: b"test".to_vec(), loc: None }
}

fn text(pieces: Vec<Piece>) -> Value {
    Value { pieces }
}

fn bind(ev: &mut Evaluator, name: &[u8], v: Variable) -> (usize, usize) {
    let sym = ev.symtab.intern(name);
    let id = ev.add_binding(v);
    let mut ro = false;
    ev.globals.assign(&ev.store, sym, id, &mut ro).unwrap();
    (sym, id)
}

fn simple(s: &[u8], origin: VarOrigin) -> Variable {
    Variable::with_simple_string(s.to_vec(), origin, None, None)
}

#[test]
fn origin_strings_are_exact() {
    assert_eq!(get_origin_str(VarOrigin::Default), "default");
    assert_eq!(get_origin_str(VarOrigin::Environment), "environment");
    assert_eq!(get_origin_str(VarOrigin::EnvironmentOverride), "environment override");
    assert_eq!(get_origin_str(VarOrigin::File), "file");
    assert_eq!(get_origin_str(VarOrigin::CommandLine), "command line");
    assert_eq!(get_origin_str(VarOrigin::Override), "override");
    assert_eq!(get_origin_str(VarOrigin::Automatic), "automatic");
}

#[test]
fn readonly_binding_keeps_its_value() {
    let mut ev = Evaluator::new(16);
    let mut v = simple(b"X", VarOrigin::File);
    v.readonly = true;
    let (sym, id) = bind(&mut ev, b"R", v);
    let other = ev.add_binding(simple(b"Y", VarOrigin::File));
    let mut ro = false;
    assert_eq!(ev.globals.assign(&ev.store, sym, other, &mut ro), Ok(()));
    assert!(ro);
    assert_eq!(ev.globals.peek(sym), Some(id));
    assert_eq!(ev.read_var(sym).unwrap(), b"X".to_vec());
}

#[test]
fn override_origins_win_over_file_assignment() {
    for origin in [VarOrigin::Override, VarOrigin::EnvironmentOverride] {
        let mut ev = Evaluator::new(16);
        let (sym, id) = bind(&mut ev, b"O", simple(b"cmd", origin));
        let other = ev.add_binding(simple(b"file", VarOrigin::File));
        let mut ro = true;
        assert_eq!(ev.globals.assign(&ev.store, sym, other, &mut ro), Ok(()));
        assert!(!ro);
        assert_eq!(ev.globals.peek(sym), Some(id));
        assert_eq!(ev.read_var(sym).unwrap(), b"cmd".to_vec());
    }
}

#[test]
fn command_line_binding_is_replaced() {
    let mut ev = Evaluator::new(16);
    let (sym, _) = bind(&mut ev, b"C", simple(b"cmd", VarOrigin::CommandLine));
    let other = ev.add_binding(simple(b"file", VarOrigin::File));
    let mut ro = false;
    assert_eq!(ev.globals.assign(&ev.store, sym, other, &mut ro), Ok(()));
    assert!(!ro);
    assert_eq!(ev.globals.peek(sym), Some(other));
    assert_eq!(ev.read_var(sym).unwrap(), b"file".to_vec());
}

#[test]
fn automatic_binding_cannot_be_reassigned() {
    let mut ev = Evaluator::new(16);
    let sym = ev.symtab.intern(b"@");
    let (_, id) = bind(&mut ev, b"@", Variable::new_autocommand(sym, AutoCommandVar::Target));
    let other = ev.add_binding(simple(b"x", VarOrigin::File));
    let mut ro = false;
    assert_eq!(ev.globals.assign(&ev.store, sym, other, &mut ro), Err(EvalError::OverrideAutomatic));
    assert_eq!(ev.globals.peek(sym), Some(id));
}

#[test]
fn simple_append_adds_one_space() {
    let mut ev = Evaluator::new(16);
    let (x, id) = bind(&mut ev, b"x", simple(b"a", VarOrigin::File));
    ev.store[id].append_str(b"b", frame()).unwrap();
    assert_eq!(ev.read_var(x).unwrap(), b"a b".to_vec());
    assert!(ev.store[id].immediate_eval());
}

#[test]
fn simple_append_freezes_referenced_text() {
    let mut ev = Evaluator::new(16);
    let (z, zid) = bind(&mut ev, b"z", simple(b"1", VarOrigin::File));
    let (x, xid) = bind(&mut ev, b"x", simple(b"a", VarOrigin::File));
    let now = Variable::with_simple_value(VarOrigin::File, None, None, &ev, &text(vec![Piece::Ref(z)])).unwrap();
    let expanded = now.string(x, &ev.worker).unwrap();
    ev.store[xid].append_str(&expanded, frame()).unwrap();
    ev.store[zid] = simple(b"2", VarOrigin::File);
    assert_eq!(ev.read_var(x).unwrap(), b"a 1".to_vec());
}

#[test]
fn recursive_binding_reads_current_values() {
    let mut ev = Evaluator::new(16);
    let z = ev.symtab.intern(b"z");
    let orig = b"$(z)".to_vec();
    let (y, _) = bind(&mut ev, b"y", Variable::new_recursive(text(vec![Piece::Ref(z)]), VarOrigin::File, None, None, orig.clone()));
    let one = ev.add_binding(simple(b"1", VarOrigin::File));
    let mut ro = false;
    ev.globals.assign(&ev.store, z, one, &mut ro).unwrap();
    assert_eq!(ev.read_var(y).unwrap(), b"1".to_vec());
    let two = ev.add_binding(simple(b"2", VarOrigin::File));
    ev.globals.assign(&ev.store, z, two, &mut ro).unwrap();
    assert_eq!(ev.read_var(y).unwrap(), b"2".to_vec());
    let yid = ev.globals.peek(y).unwrap();
    assert_eq!(ev.store[yid].string(y, &ev.worker).unwrap(), orig);
}

#[test]
fn recursive_append_stays_deferred() {
    let mut ev = Evaluator::new(16);
    let z = ev.symtab.intern(b"z");
    let w = ev.symtab.intern(b"w");
    let (y, yid) = bind(&mut ev, b"y", Variable::new_recursive(text(vec![Piece::Ref(z)]), VarOrigin::File, None, None, b"$(z)".to_vec()));
    let one = ev.add_binding(simple(b"1", VarOrigin::File));
    let wv = ev.add_binding(simple(b"w", VarOrigin::File));
    let mut ro = false;
    ev.globals.assign(&ev.store, z, one, &mut ro).unwrap();
    ev.globals.assign(&ev.store, w, wv, &mut ro).unwrap();
    ev.store[yid].append_var(text(vec![Piece::Ref(w)]), frame()).unwrap();
    let two = ev.add_binding(simple(b"2", VarOrigin::File));
    ev.globals.assign(&ev.store, z, two, &mut ro).unwrap();
    assert_eq!(ev.read_var(y).unwrap(), b"2 w".to_vec());
    assert!(!ev.store[yid].immediate_eval());
}

#[test]
fn recursive_append_of_text() {
    let mut ev = Evaluator::new(16);
    let (y, yid) = bind(&mut ev, b"y", Variable::new_recursive(text(vec![Piece::Literal(b"p".to_vec())]), VarOrigin::File, None, None, b"p".to_vec()));
    ev.store[yid].append_str(b"q", frame()).unwrap();
    assert_eq!(ev.read_var(y).unwrap(), b"p q".to_vec());
}

#[test]
fn self_reference_hits_the_depth_limit() {
    let mut ev = Evaluator::new(8);
    let y = ev.symtab.intern(b"y");
    bind(&mut ev, b"y", Variable::new_recursive(text(vec![Piece::Ref(y)]), VarOrigin::File, None, None, b"$(y)".to_vec()));
    assert_eq!(ev.read_var(y), Err(EvalError::RecursionTooDeep));
}

#[test]
fn unbound_name_reads_empty() {
    let mut ev = Evaluator::new(8);
    let u = ev.symtab.intern(b"u");
    assert_eq!(ev.read_var(u).unwrap(), Vec::<u8>::new());
}

#[test]
fn appending_to_other_flavors_fails() {
    let mut ev = Evaluator::new(8);
    let sym = ev.symtab.intern(b"@");
    let mut a = Variable::new_autocommand(sym, AutoCommandVar::Target);
    assert_eq!(a.append_str(b"x", frame()), Err(EvalError::AppendNotSupported(Some(sym))));
    assert_eq!(a.append_var(text(vec![]), frame()), Err(EvalError::AppendNotSupported(Some(sym))));
    let mut s = Variable::new_shell_status_var();
    assert_eq!(s.append_str(b"x", frame()), Err(EvalError::AppendNotSupported(None)));
    let mut n = Variable::new_variable_names(b".VARIABLES", false);
    assert_eq!(n.append_str(b"x", frame()), Err(EvalError::AppendNotSupported(None)));
}

#[test]
fn scope_guard_restores_prior_binding() {
    let mut vars = Vars::new();
    vars.insert(3, 10);
    let g = ScopedVar::new(&mut vars, 3, 11);
    assert_eq!(vars.peek(3), Some(11));
    g.release(&mut vars);
    assert_eq!(vars.peek(3), Some(10));
}

#[test]
fn scope_guard_removes_new_slot() {
    let mut vars = Vars::new();
    let g = ScopedVar::new(&mut vars, 5, 1);
    assert_eq!(vars.peek(5), Some(1));
    g.release(&mut vars);
    assert_eq!(vars.peek(5), None);
}

#[test]
fn nested_guards_restore_in_reverse_order() {
    let mut ev = Evaluator::new(8);
    let (v, _) = bind(&mut ev, b"V", simple(b"before", VarOrigin::File));
    let first = ev.add_binding(simple(b"first", VarOrigin::File));
    let second = ev.add_binding(simple(b"second", VarOrigin::File));
    let outer = ScopedVar::new(&mut ev.globals, v, first);
    assert_eq!(ev.read_var(v).unwrap(), b"first".to_vec());
    let inner = ScopedVar::new(&mut ev.globals, v, second);
    assert_eq!(ev.read_var(v).unwrap(), b"second".to_vec());
    inner.release(&mut ev.globals);
    assert_eq!(ev.read_var(v).unwrap(), b"first".to_vec());
    outer.release(&mut ev.globals);
    assert_eq!(ev.read_var(v).unwrap(), b"before".to_vec());
}

#[test]
fn obsolete_read_fails_and_deprecated_warns_once() {
    let mut ev = Evaluator::new(8);
    let (o, oid) = bind(&mut ev, b"OLD", simple(b"o", VarOrigin::File));
    ev.store[oid].set_obsolete(b" use NEW".to_vec());
    assert!(ev.store[oid].obsolete());
    assert_eq!(ev.read_var(o), Err(EvalError::Obsolete(o)));
    assert_eq!(ev.warnings.len(), 0);

    let (d, did) = bind(&mut ev, b"DEP", simple(b"d", VarOrigin::File));
    ev.store[did].deprecated = Some(b" soon".to_vec());
    assert_eq!(ev.read_var(d).unwrap(), b"d".to_vec());
    assert_eq!(ev.warnings.len(), 1);
    assert_eq!(ev.read_var(d).unwrap(), b"d".to_vec());
    assert_eq!(ev.warnings.len(), 2);
    assert_eq!(ev.warnings[1].sym, d);
    assert_eq!(ev.warnings[1].message, b" soon".to_vec());
}

#[test]
fn obsolete_reference_inside_expansion_fails() {
    let mut ev = Evaluator::new(8);
    let (o, oid) = bind(&mut ev, b"OLD", simple(b"o", VarOrigin::File));
    ev.store[oid].set_obsolete(Vec::new());
    let (y, _) = bind(&mut ev, b"y", Variable::new_recursive(text(vec![Piece::Ref(o)]), VarOrigin::File, None, None, b"$(OLD)".to_vec()));
    assert_eq!(ev.read_var(y), Err(EvalError::Obsolete(o)));
}

#[test]
fn flavor_tags() {
    let names = Variable::new_variable_names(b".VARIABLES", true);
    assert_eq!(simple(b"", VarOrigin::File).flavor(), "simple");
    assert_eq!(Variable::new_recursive(text(vec![]), VarOrigin::File, None, None, Vec::new()).flavor(), "recursive");
    assert_eq!(Variable::new_autocommand(0, AutoCommandVar::Target).flavor(), "undefined");
    assert_eq!(Variable::new_shell_status_var().flavor(), "simple");
    assert_eq!(names.flavor(), "kati_variable_names");
    assert!(names.readonly);
    assert_eq!(names.origin(), VarOrigin::Override);
}

#[test]
fn is_func_by_flavor() {
    assert!(!simple(b"x", VarOrigin::File).is_func());
    assert!(Variable::new_autocommand(0, AutoCommandVar::Target).is_func());
    assert!(!Variable::new_recursive(text(vec![Piece::Ref(1)]), VarOrigin::File, None, None, Vec::new()).is_func());
    assert!(Variable::new_recursive(text(vec![Piece::Literal(b"a".to_vec()), Piece::Call(1)]), VarOrigin::File, None, None, Vec::new()).is_func());
    assert!(!Variable::new_shell_status_var().is_func());
}

#[test]
fn visibility_prefix_registration() {
    let mut v = simple(b"x", VarOrigin::File);
    assert_eq!(v.set_visibility_prefix(vec![b"build/".to_vec(), b"vendor".to_vec()], 4), Ok(()));
    assert_eq!(v.set_visibility_prefix(vec![b"build/".to_vec(), b"vendor".to_vec()], 4), Ok(()));
    assert_eq!(v.set_visibility_prefix(vec![b"other".to_vec()], 4), Err(EvalError::VisibilityConflict(4)));
}

#[test]
fn visibility_prefix_checks_the_reading_file() {
    let mut v = simple(b"x", VarOrigin::File);
    let at = |f: &[u8]| Some(Loc { filename: f.to_vec(), line: 3 });
    assert_eq!(v.check_current_referencing_file(&at(b"anything"), 2), Ok(()));
    v.set_visibility_prefix(vec![b"vendor".to_vec()], 2).unwrap();
    assert_eq!(v.check_current_referencing_file(&at(b"vendor/a.mk"), 2), Ok(()));
    assert_eq!(v.check_current_referencing_file(&at(b"vendor"), 2), Ok(()));
    assert_eq!(v.check_current_referencing_file(&at(b"vendorx/a.mk"), 2), Err(EvalError::NotVisibleFrom(2)));
    assert_eq!(v.check_current_referencing_file(&at(b"src/a.mk"), 2), Err(EvalError::NotVisibleFrom(2)));
    assert_eq!(v.check_current_referencing_file(&None, 2), Err(EvalError::NotVisibleFrom(2)));
}

#[test]
fn restricted_binding_read_from_other_file() {
    let mut ev = Evaluator::new(8);
    let (p, pid) = bind(&mut ev, b"P", simple(b"secret", VarOrigin::File));
    ev.store[pid].set_visibility_prefix(vec![b"vendor".to_vec()], p).unwrap();
    ev.loc = Some(Loc { filename: b"src/Makefile".to_vec(), line: 1 });
    assert_eq!(ev.read_var(p), Err(EvalError::NotVisibleFrom(p)));
    ev.loc = Some(Loc { filename: b"vendor/x.mk".to_vec(), line: 1 });
    assert_eq!(ev.read_var(p).unwrap(), b"secret".to_vec());
}

#[test]
fn shell_status_text_and_rule_restriction() {
    let mut ev = Evaluator::new(8);
    let (s, sid) = bind(&mut ev, b".SHELLSTATUS", Variable::new_shell_status_var());
    assert_eq!(ev.read_var(s).unwrap(), Vec::<u8>::new());
    set_shell_status_var(&mut ev.worker, 0);
    assert_eq!(ev.read_var(s).unwrap(), b"0".to_vec());
    set_shell_status_var(&mut ev.worker, 127);
    assert_eq!(ev.read_var(s).unwrap(), b"127".to_vec());
    set_shell_status_var(&mut ev.worker, -2147483648);
    assert_eq!(ev.store[sid].string(s, &ev.worker).unwrap(), b"-2147483648".to_vec());
    ev.is_evaluating_command = true;
    assert_eq!(ev.read_var(s), Err(EvalError::ShellStatusInRule));
}

#[test]
fn automatic_values_and_textual_form() {
    let mut ev = Evaluator::new(8);
    let t = ev.symtab.intern(b"@");
    let f = ev.symtab.intern(b"<");
    bind(&mut ev, b"@", Variable::new_autocommand(t, AutoCommandVar::Target));
    let (_, fid) = bind(&mut ev, b"<", Variable::new_autocommand(f, AutoCommandVar::FirstInput));
    assert_eq!(ev.read_var(f).unwrap(), Vec::<u8>::new());
    ev.target = b"out.o".to_vec();
    ev.inputs = vec![b"a.c".to_vec(), b"b.h".to_vec()];
    assert_eq!(ev.read_var(t).unwrap(), b"out.o".to_vec());
    assert_eq!(ev.read_var(f).unwrap(), b"a.c".to_vec());
    assert_eq!(ev.store[fid].string(f, &ev.worker), Err(EvalError::ValueNotImplemented(f)));
}

#[test]
fn variable_names_listing() {
    let mut ev = Evaluator::new(8);
    let (_, _) = bind(&mut ev, b"A", simple(b"1", VarOrigin::File));
    let (_, oid) = bind(&mut ev, b"OLD", simple(b"2", VarOrigin::File));
    ev.store[oid].set_obsolete(Vec::new());
    let f = ev.symtab.intern(b"F");
    bind(&mut ev, b"F", Variable::new_recursive(text(vec![Piece::Call(f)]), VarOrigin::File, None, None, b"$(call F)".to_vec()));
    ev.symtab.intern(b"UNBOUND");
    let (some, sid) = bind(&mut ev, b".VARIABLES", Variable::new_variable_names(b".VARIABLES", false));
    let (all, _) = bind(&mut ev, b".KATI_ALL", Variable::new_variable_names(b".KATI_ALL", true));
    assert_eq!(ev.read_var(some).unwrap(), b"A .VARIABLES .KATI_ALL".to_vec());
    assert_eq!(ev.read_var(all).unwrap(), b"A F .VARIABLES .KATI_ALL".to_vec());
    assert_eq!(ev.store[sid].string(some, &ev.worker).unwrap(), b".VARIABLES".to_vec());
}

#[test]
fn environment_reads_are_recorded() {
    let mut ev = Evaluator::new(8);
    let (e, _) = bind(&mut ev, b"HOME", simple(b"/root", VarOrigin::Environment));
    let (x, _) = bind(&mut ev, b"X", simple(b"x", VarOrigin::File));
    assert_eq!(ev.globals.peek(e).is_some(), true);
    assert!(ev.worker.used_env_vars.is_empty());
    ev.read_var(x).unwrap();
    assert!(ev.worker.used_env_vars.is_empty());
    ev.read_var(e).unwrap();
    ev.read_var(e).unwrap();
    assert_eq!(ev.worker.used_env_vars, vec![e]);
}

#[test]
fn merge_shares_bindings_and_overwrites() {
    let mut a = Vars::new();
    a.insert(1, 10);
    a.insert(2, 20);
    let mut b = Vars::new();
    b.insert(2, 21);
    b.insert(7, 70);
    a.merge_from(&b);
    assert_eq!(a.peek(1), Some(10));
    assert_eq!(a.peek(2), Some(21));
    assert_eq!(a.peek(7), Some(70));
    assert_eq!(b.peek(1), None);
}

#[test]
fn cloned_scope_is_independent() {
    let mut a = Vars::new();
    a.insert(1, 10);
    let mut c = a.clone();
    c.insert(1, 11);
    c.remove(1);
    assert_eq!(a.peek(1), Some(10));
    assert_eq!(c.peek(1), None);
}

#[test]
fn simple_value_is_expanded_once() {
    let mut ev = Evaluator::new(8);
    let (z, _) = bind(&mut ev, b"z", simple(b"zz", VarOrigin::File));
    let v = Variable::with_simple_value(VarOrigin::Override, None, None, &ev, &text(vec![Piece::Literal(b"<".to_vec()), Piece::Ref(z), Piece::Literal(b">".to_vec())])).unwrap();
    assert_eq!(v.string(0, &ev.worker).unwrap(), b"<zz>".to_vec());
    assert_eq!(v.origin(), VarOrigin::Override);
    let e = Variable::new_simple(VarOrigin::Default, None, None);
    assert_eq!(e.string(0, &ev.worker).unwrap(), Vec::<u8>::new());
}

#[test]
fn append_records_the_defining_frame() {
    let mut s = simple(b"a", VarOrigin::File);
    assert!(s.definition().is_none());
    s.append_str(b"b", frame()).unwrap();
    assert_eq!(s.definition().as_ref().unwrap().name, b"test".to_vec());
    let mut r = Variable::new_recursive(text(vec![]), VarOrigin::File, None, None, Vec::new());
    r.append_var(text(vec![Piece::Literal(b"x".to_vec())]), frame()).unwrap();
    assert!(r.definition().is_some());
    let mut a = Variable::new_autocommand(0, AutoCommandVar::Target);
    assert!(a.append_str(b"x", frame()).is_err());
    assert!(a.definition().is_none());
}

#[test]
fn factories_keep_location_and_frame() {
    let l = Loc { filename: b"a.mk".to_vec(), line: 9 };
    let v = Variable::with_simple_string(b"v".to_vec(), VarOrigin::File, Some(frame()), Some(l));
    assert_eq!(v.loc().as_ref().unwrap().line, 9);
    assert!(v.definition().is_some());
    assert!(v.assign_op.is_none());
    let s = Variable::new_shell_status_var();
    assert!(s.loc().is_none() && s.definition().is_none());
}

#[test]
fn obsolete_message_is_kept() {
    let mut v = simple(b"x", VarOrigin::File);
    v.set_obsolete(b" since 2.0".to_vec());
    assert_eq!(v.obsolete, Some(b" since 2.0".to_vec()));
    assert_eq!(v.origin(), VarOrigin::File);
}
