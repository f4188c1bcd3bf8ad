//! Text for people, in pieces.
//!
//! Messages and field listings can hold real numbers, and how those print is the
//! business of whoever shows them. So a message is a list of pieces.

use vstd::prelude::*;

use crate::bits::Single;

verus! {

/// A piece of a message.
#[derive(Debug)]
pub enum Piece {
    Text(String),
    /// A number, shown the shortest way that reads back as the same value.
    Number(Single),
}

/// What a [`Piece`] says.
#[verifier::ext_equal]
pub enum PieceView {
    Text(Seq<char>),
    Number(Single),
}

impl View for Piece {
    type V = PieceView;

    open spec fn view(&self) -> PieceView {
        match *self {
            Piece::Text(t) => PieceView::Text(t@),
            Piece::Number(n) => PieceView::Number(n),
        }
    }
}

pub open spec fn pieces_view(v: Seq<Piece>) -> Seq<PieceView> {
    Seq::new(v.len(), |i: int| v[i]@)
}

pub fn one_text(text: &str) -> (r: Vec<Piece>)
    ensures
        pieces_view(r@) == seq![PieceView::Text(text@)],
{
    let mut r: Vec<Piece> = Vec::new();
    r.push(Piece::Text(text.to_owned()));
    assert(pieces_view(r@) =~= seq![PieceView::Text(text@)]);
    r
}

/// `before`, then `quoted`, then `after`.
pub fn three_texts(before: &str, quoted: &str, after: &str) -> (r: Vec<Piece>)
    ensures
        pieces_view(r@) == seq![PieceView::Text(before@ + quoted@ + after@)],
{
    let mut t = before.to_owned();
    t.append(quoted);
    t.append(after);
    let mut r: Vec<Piece> = Vec::new();
    r.push(Piece::Text(t));
    assert(pieces_view(r@) =~= seq![PieceView::Text(before@ + quoted@ + after@)]);
    r
}

/// `before`, then the number.
pub fn text_number(before: &str, n: Single) -> (r: Vec<Piece>)
    ensures
        pieces_view(r@) == seq![PieceView::Text(before@), PieceView::Number(n)],
{
    let mut r: Vec<Piece> = Vec::new();
    r.push(Piece::Text(before.to_owned()));
    r.push(Piece::Number(n));
    assert(pieces_view(r@) =~= seq![PieceView::Text(before@), PieceView::Number(n)]);
    r
}

/// The value of a field in a listing.
#[derive(Debug)]
pub enum FieldValue {
    Text(String),
    List(Vec<String>),
    Count(u64),
    Flag(bool),
    Number(Single),
}

/// What a [`FieldValue`] says.
#[verifier::ext_equal]
pub enum FieldValueView {
    Text(Seq<char>),
    List(Seq<Seq<char>>),
    Count(u64),
    Flag(bool),
    Number(Single),
}

impl View for FieldValue {
    type V = FieldValueView;

    open spec fn view(&self) -> FieldValueView {
        match *self {
            FieldValue::Text(t) => FieldValueView::Text(t@),
            FieldValue::List(v) => FieldValueView::List(crate::text::list_view(v@)),
            FieldValue::Count(n) => FieldValueView::Count(n),
            FieldValue::Flag(b) => FieldValueView::Flag(b),
            FieldValue::Number(n) => FieldValueView::Number(n),
        }
    }
}

/// A named field in a listing.
#[derive(Debug)]
pub struct Field {
    pub name: String,
    pub value: FieldValue,
}

/// What a [`Field`] says.
#[verifier::ext_equal]
pub struct FieldView {
    pub name: Seq<char>,
    pub value: FieldValueView,
}

impl View for Field {
    type V = FieldView;

    open spec fn view(&self) -> FieldView {
        FieldView { name: self.name@, value: self.value@ }
    }
}

pub open spec fn fields_view(v: Seq<Field>) -> Seq<FieldView> {
    Seq::new(v.len(), |i: int| v[i]@)
}

pub fn list(fields: &mut Vec<Field>, name: &str, value: FieldValue)
    ensures
        fields_view(final(fields)@) == fields_view(old(fields)@).push(
            FieldView { name: name@, value: value@ },
        ),
{
    let field = Field { name: name.to_owned(), value };
    let ghost before = fields@;
    fields.push(field);
    assert(fields_view(fields@) =~= fields_view(before).push(field@));
}

} // verus!
