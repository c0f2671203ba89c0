//! Descriptors as text and the inheritance of entries.

use vstd::prelude::*;
use crate::security::codec::ParseError;

pub mod builders;
pub mod claims;
pub mod claims_laws;
pub mod cond;
pub mod cond_laws;
pub mod condition;
pub mod entry;
pub mod entry_laws;
pub mod fields;
pub mod grammar;
pub mod grammar_laws;
pub mod inherit;
pub mod inherit_laws;
pub mod names;
pub mod parsed_laws;
pub mod scan;
pub mod tokens;
pub mod utf8_laws;
pub mod vocab;
pub mod wellknown;
pub mod words;

verus! {

/// The entries of a list cannot be encoded.
pub const ACL_DOES_NOT_FIT: &'static str = "the entries do not fit an ACL of 65535 bytes";

/// A descriptor cannot be encoded.
pub const SD_DOES_NOT_FIT: &'static str = "the descriptor exceeds 65535 bytes";

/// Why a descriptor could not be read, written or derived.
#[derive(Clone, Debug, PartialEq, Eq)]
pub enum Error {
    /// The bytes of a descriptor, list, entry or SID are malformed.
    Parse(ParseError),
    /// What was asked for does not fit the binary layout.
    Encode(&'static str),
    /// Text is not a descriptor, or a descriptor has no text.
    Sddl(SddlError),
}

impl From<ParseError> for Error {
    fn from(e: ParseError) -> (r: Error) {
        Error::Parse(e)
    }
}

impl vstd::std_specs::convert::FromSpecImpl<ParseError> for Error {
    open spec fn obeys_from_spec() -> bool {
        true
    }

    open spec fn from_spec(e: ParseError) -> Error {
        Error::Parse(e)
    }
}

impl From<SddlError> for Error {
    fn from(e: SddlError) -> (r: Error) {
        Error::Sddl(e)
    }
}

impl vstd::std_specs::convert::FromSpecImpl<SddlError> for Error {
    open spec fn obeys_from_spec() -> bool {
        true
    }

    open spec fn from_spec(e: SddlError) -> Error {
        Error::Sddl(e)
    }
}

/// Why text is not a descriptor, or a descriptor has no text. Faults of one field carry the
/// text that is at fault.
#[derive(Clone, Debug, PartialEq, Eq)]
pub enum SddlError {
    /// There is no text.
    Empty,
    /// The text does not fall into sections, or a list not into entries.
    Malformed,
    /// A section occurs twice.
    DuplicateSection(char),
    /// The flags of a list are not known.
    UnknownAclFlag,
    /// An entry has the wrong number of fields.
    WrongFieldCount(usize),
    /// The field, or the number of a type that has no code.
    UnknownAceType(Vec<u8>),
    /// The field.
    UnknownFlag(Vec<u8>),
    /// The field.
    UnknownRight(Vec<u8>),
    /// The field.
    BadGuid(Vec<u8>),
    /// An entry without room for GUIDs has one. The code of its type.
    ObjectFieldsOnNonObjectAce(Vec<u8>),
    /// The text without the space around it.
    BadSid(Vec<u8>),
    /// A name needs a domain or a machine to stand for a SID. The name.
    DomainRelativeAlias(Vec<u8>),
    /// A conditional expression is malformed.
    BadCondition,
    /// A claim is malformed.
    BadClaim,
    /// The bytes of an entry are malformed, or no text stands for them.
    BadAce,
}

/// What an error says.
#[verifier::ext_equal]
pub enum SddlErrorView {
    Empty,
    Malformed,
    DuplicateSection(char),
    UnknownAclFlag,
    WrongFieldCount(usize),
    UnknownAceType(Seq<u8>),
    UnknownFlag(Seq<u8>),
    UnknownRight(Seq<u8>),
    BadGuid(Seq<u8>),
    ObjectFieldsOnNonObjectAce(Seq<u8>),
    BadSid(Seq<u8>),
    DomainRelativeAlias(Seq<u8>),
    BadCondition,
    BadClaim,
    BadAce,
}

impl View for SddlError {
    type V = SddlErrorView;

    open spec fn view(&self) -> SddlErrorView {
        match *self {
            SddlError::Empty => SddlErrorView::Empty,
            SddlError::Malformed => SddlErrorView::Malformed,
            SddlError::DuplicateSection(letter) => SddlErrorView::DuplicateSection(letter),
            SddlError::UnknownAclFlag => SddlErrorView::UnknownAclFlag,
            SddlError::WrongFieldCount(n) => SddlErrorView::WrongFieldCount(n),
            SddlError::UnknownAceType(t) => SddlErrorView::UnknownAceType(t@),
            SddlError::UnknownFlag(t) => SddlErrorView::UnknownFlag(t@),
            SddlError::UnknownRight(t) => SddlErrorView::UnknownRight(t@),
            SddlError::BadGuid(t) => SddlErrorView::BadGuid(t@),
            SddlError::ObjectFieldsOnNonObjectAce(t) => SddlErrorView::ObjectFieldsOnNonObjectAce(t@),
            SddlError::BadSid(t) => SddlErrorView::BadSid(t@),
            SddlError::DomainRelativeAlias(t) => SddlErrorView::DomainRelativeAlias(t@),
            SddlError::BadCondition => SddlErrorView::BadCondition,
            SddlError::BadClaim => SddlErrorView::BadClaim,
            SddlError::BadAce => SddlErrorView::BadAce,
        }
    }
}

} // verus!
