//! The generated source as a sequence of pieces.
//!
//! Most of the file is text that this crate produces. A few sections come
//! from the code generation shared with the client side (enum definitions,
//! opcode constants, the request enum, doc comments, and the Rust spelling
//! of an argument type); those are recorded as pieces that name the call to
//! make, and are filled in when the pieces are written out.

use vstd::prelude::*;

use crate::protocol::Type;

verus! {

/// One piece of the generated source.
#[derive(Clone, Debug, PartialEq, Eq)]
pub enum Piece {
    /// Literal source text.
    Text(String),
    /// The enum definitions of interface `i`.
    Enums(usize),
    /// The opcode constants of the events of interface `i`.
    Opcodes(usize),
    /// The request enum of interface `i`.
    RequestEnums(usize),
    /// A doc comment: summary, long description, indentation.
    Doc(String, String, String),
    /// The Rust type that carries an argument of this wire type.
    RustType(Type),
}

/// The mathematical value of a [`Piece`].
pub enum PieceView {
    Text(Seq<char>),
    Enums(nat),
    Opcodes(nat),
    RequestEnums(nat),
    Doc(Seq<char>, Seq<char>, Seq<char>),
    RustType(Type),
}

impl View for Piece {
    type V = PieceView;

    open spec fn view(&self) -> PieceView {
        match self {
            Piece::Text(s) => PieceView::Text(s@),
            Piece::Enums(i) => PieceView::Enums(*i as nat),
            Piece::Opcodes(i) => PieceView::Opcodes(*i as nat),
            Piece::RequestEnums(i) => PieceView::RequestEnums(*i as nat),
            Piece::Doc(s, d, ind) => PieceView::Doc(s@, d@, ind@),
            Piece::RustType(t) => PieceView::RustType(*t),
        }
    }
}

/// Shorthand for a text piece.
pub open spec fn text(s: Seq<char>) -> PieceView {
    PieceView::Text(s)
}

/// The pieces written so far.
pub struct Output {
    pub pieces: Vec<Piece>,
}

impl View for Output {
    type V = Seq<PieceView>;

    open spec fn view(&self) -> Seq<PieceView> {
        self.pieces@.map_values(|p: Piece| p@)
    }
}

impl Output {
    /// An empty output.
    pub fn new() -> (o: Output)
        ensures
            o@ == Seq::<PieceView>::empty(),
    {
        let o = Output { pieces: Vec::new() };
        assert(o@ =~= Seq::<PieceView>::empty());
        o
    }

    /// Appends a piece.
    pub fn push(&mut self, p: Piece)
        ensures
            final(self)@ == old(self)@.push(p@),
    {
        let ghost before = self.pieces@;
        self.pieces.push(p);
        assert(self.pieces@.map_values(|p: Piece| p@) =~= before.map_values(|p: Piece| p@).push(
            p@,
        ));
    }

    /// Appends a text piece.
    pub fn text(&mut self, s: String)
        ensures
            final(self)@ == old(self)@.push(text(s@)),
    {
        self.push(Piece::Text(s));
    }
}

} // verus!
