use vstd::prelude::*;

use crate::symtab::Symbol;

verus! {

/// A place in a source file.
#[derive(Debug)]
pub struct Loc {
    pub filename: Vec<u8>,
    pub line: u64,
}

/// The call frame in which a binding was defined, kept for diagnostics.
#[derive(Debug)]
pub struct Frame {
    pub name: Vec<u8>,
    pub loc: Option<Loc>,
}

/// One part of an unexpanded text.
#[derive(Debug)]
pub enum Piece {
    /// Text taken as it stands.
    Literal(Vec<u8>),
    /// `$(name)`: the expansion of a binding.
    Ref(Symbol),
    /// `$(call name)`: the expansion of a binding through the call machinery.
    Call(Symbol),
}

/// An unexpanded text: its pieces, expanded one after another.
#[derive(Debug)]
pub struct Value {
    pub pieces: Vec<Piece>,
}

/// Whether some piece goes through the call machinery.
pub open spec fn has_call(ps: Seq<Piece>) -> bool {
    exists|i: int| 0 <= i < ps.len() && ps[i] is Call
}

impl Value {
    /// A text of one literal piece.
    pub fn literal(text: Vec<u8>) -> (r: Value)
        ensures
            r.pieces@.len() == 1,
            r.pieces@[0] is Literal,
            r.pieces@[0]->Literal_0@ == text@,
    {
        let mut pieces: Vec<Piece> = Vec::new();
        pieces.push(Piece::Literal(text));
        Value { pieces }
    }

    /// Whether expanding this text invokes the call machinery.
    pub fn is_func(&self) -> (r: bool)
        ensures
            r == has_call(self.pieces@),
    {
        let mut i: usize = 0;
        while i < self.pieces.len()
            invariant
                i <= self.pieces@.len(),
                forall|j: int| 0 <= j < i ==> !(self.pieces@[j] is Call),
            decreases self.pieces@.len() - i,
        {
            if let Piece::Call(_) = &self.pieces[i] {
                return true;
            }
            i = i + 1;
        }
        false
    }
}

} // verus!
