//! The declaration model the analysis consumes, and the located errors it
//! reports.
//!
//! A declaration arrives already parsed: the host front end hands over the
//! type's name, its generics rendered as text, its attributes flattened to
//! name-plus-identifier-list form, and its variants with their optional
//! explicit discriminant literals.

use vstd::prelude::*;

verus! {

/// How a variant's payload is shaped.
#[derive(Clone, Copy, PartialEq, Eq, Structural, Debug)]
pub enum VariantFields {
    Unit,
    Tuple,
    Struct,
}

/// An explicit discriminant expression: either a bare decimal integer
/// literal, carried as its digits, or some other expression form, which
/// the analysis rejects.
#[derive(Clone, PartialEq, Eq, Debug)]
pub enum DiscriminantExpr {
    IntLiteral(String),
    Unsupported,
}

/// One variant of the declared enum.
#[derive(Clone, PartialEq, Eq, Debug)]
pub struct Variant {
    pub name: String,
    pub fields: VariantFields,
    pub discriminant: Option<DiscriminantExpr>,
}

/// An attribute: its name and, when its input forms a parenthesized
/// comma-separated identifier list, those identifiers in order.
#[derive(Clone, PartialEq, Eq, Debug)]
pub struct Attribute {
    pub name: String,
    pub idents: Option<Vec<String>>,
}

/// What the declaration declares; only an enumeration can be analyzed.
#[derive(Clone, PartialEq, Eq, Debug)]
pub enum DeclarationData {
    Enumeration(Vec<Variant>),
    Structure,
    Union,
}

/// A parsed declaration. The three generics fields hold the text to splice
/// around the implementation header, exactly as the host rendered them.
#[derive(Clone, PartialEq, Eq, Debug)]
pub struct EnumDeclaration {
    pub name: String,
    pub impl_generics: String,
    pub ty_generics: String,
    pub where_clause: String,
    pub attributes: Vec<Attribute>,
    pub data: DeclarationData,
}

/// Why a declaration was rejected.
#[derive(Clone, Copy, PartialEq, Eq, Structural, Debug)]
pub enum ErrorKind {
    NotAnEnum,
    MissingOrInvalidRepresentation,
    NonLiteralDiscriminant,
    DiscontinuousDiscriminants,
    NonZeroFirstDiscriminant,
    NonFieldlessVariant,
    MissingInteropLayout,
    MalformedReprAttribute,
}

/// Where the rejected construct stands: the declaration as a whole, or the
/// variant at the given index in declaration order.
#[derive(Clone, Copy, PartialEq, Eq, Structural, Debug)]
pub enum ErrorLocation {
    Declaration,
    AtVariant(usize),
}

/// A validation failure, bound to the source construct that caused it.
#[derive(Clone, Copy, PartialEq, Eq, Structural, Debug)]
pub struct AnalysisError {
    pub kind: ErrorKind,
    pub location: ErrorLocation,
}

/// The diagnostic text for each kind of failure.
pub open spec fn error_message(k: ErrorKind) -> Seq<char> {
    match k {
        ErrorKind::NotAnEnum => "expected enum"@,
        ErrorKind::MissingOrInvalidRepresentation => "enum must have a repr( ) attribute of a ::std::primitive type"@,
        ErrorKind::NonLiteralDiscriminant => "enum discriminant must be an integer literal"@,
        ErrorKind::DiscontinuousDiscriminants => "discontinuous discriminants"@,
        ErrorKind::NonZeroFirstDiscriminant => "first discriminant must be 0, unspecified, or not exist"@,
        ErrorKind::NonFieldlessVariant => "enum must have no fields"@,
        ErrorKind::MissingInteropLayout => "expected repr(C)"@,
        ErrorKind::MalformedReprAttribute => "repr attribute must be a parenthesized list of identifiers"@,
    }
}

impl AnalysisError {
    /// The human-readable explanation the host surfaces as a diagnostic.
    pub fn message(&self) -> (r: String)
        ensures
            r@ == error_message(self.kind),
    {
        match self.kind {
            ErrorKind::NotAnEnum => "expected enum".to_owned(),
            ErrorKind::MissingOrInvalidRepresentation => "enum must have a repr( ) attribute of a ::std::primitive type".to_owned(),
            ErrorKind::NonLiteralDiscriminant => "enum discriminant must be an integer literal".to_owned(),
            ErrorKind::DiscontinuousDiscriminants => "discontinuous discriminants".to_owned(),
            ErrorKind::NonZeroFirstDiscriminant => "first discriminant must be 0, unspecified, or not exist".to_owned(),
            ErrorKind::NonFieldlessVariant => "enum must have no fields".to_owned(),
            ErrorKind::MissingInteropLayout => "expected repr(C)".to_owned(),
            ErrorKind::MalformedReprAttribute => "repr attribute must be a parenthesized list of identifiers".to_owned(),
        }
    }
}

/// Which structural checks a caller asks the analysis to run. Each derived
/// trait needs its own subset; the analysis runs only what is requested.
#[derive(Clone, Copy, PartialEq, Eq, Structural, Debug)]
pub struct ValidationSet {
    pub representation: bool,
    pub interop_header: bool,
    pub continuity: bool,
    pub zero_basing: bool,
    pub fieldlessness: bool,
}

/// The trait whose implementation is requested.
#[derive(Clone, Copy, PartialEq, Eq, Structural, Debug)]
pub enum TraitRequest {
    DiscriminantValues,
    DiscriminantHeaded,
    ContinuousDiscriminants,
    FirstDiscriminantIsZero,
    FieldlessEnum,
}

/// Relies on `PartialEq for str`: equality of the character sequences.
#[verifier::external_body]
pub fn str_eq(a: &str, b: &str) -> (r: bool)
    ensures
        r == (a@ == b@),
{
    a == b
}

} // verus!
