//! What can go wrong: in a description, in a schema, and when decoding.

use vstd::prelude::*;
use crate::schema::{Block, Which};

verus! {

/// A top-level section of a description.
#[derive(Clone, Copy, Debug, PartialEq, Eq, Structural)]
pub enum SectionKind {
    Metadata,
    Request,
    Response,
    Error,
}

/// A key of the metadata section.
#[derive(Clone, Copy, Debug, PartialEq, Eq, Structural)]
pub enum Key {
    Description,
    Method,
    Name,
    LegacyPath,
    StablePath,
    RateLimited,
    Authentication,
    Introduced,
    Deprecated,
    Removed,
}

/// A description that is not well formed. Positions count from zero, in the
/// order in which the description lists its sections, entries and fields.
#[derive(Clone, Copy, Debug, PartialEq, Eq, Structural)]
pub enum ParseError {
    /// The section at this position has a name that is not known.
    UnknownSection(usize),
    /// The section at this position has the name of an earlier one.
    DuplicateSection(usize),
    /// A section that every description has is not there.
    MissingSection(SectionKind),
    /// The metadata entry at this position has a key that is not known, or attributes.
    UnknownKey(usize),
    /// The metadata entry at this position has the key of an earlier one.
    DuplicateKey(usize),
    /// A key that every description has is not there; for the two paths: neither is.
    MissingKey(Key),
    /// The value of this key cannot be read.
    InvalidValue(Key),
    /// The field at this position of the block is not a name with a type
    /// and at most one attribute that the block knows.
    MalformedField(Block, usize),
    /// The field at this position of the block has the name of an earlier one.
    DuplicateField(Block, usize),
    /// The error section does not hold exactly one type.
    MalformedError,
}

/// A schema that can be read but breaks a rule that spans its fields.
#[derive(Debug)]
pub enum ValidationError {
    /// A field is the whole body and another is a member of the body.
    BodyConflict { block: Block, whole: String, member: String },
    /// Two fields are each the whole body.
    DuplicateNewtypeBody { block: Block, first: String, second: String },
    /// The variable at this position of the template is not the name of the
    /// path field at the same position.
    UnboundPathVariable { template: Which, position: usize, variable: String },
    /// The template has another number of variables than the request has path fields.
    TemplateMismatch { template: Which, variables: usize, fields: usize },
}

pub enum ValidationErrorView {
    BodyConflict { block: Block, whole: Seq<char>, member: Seq<char> },
    DuplicateNewtypeBody { block: Block, first: Seq<char>, second: Seq<char> },
    UnboundPathVariable { template: Which, position: int, variable: Seq<char> },
    TemplateMismatch { template: Which, variables: int, fields: int },
}

impl DeepView for ValidationError {
    type V = ValidationErrorView;

    open spec fn deep_view(&self) -> ValidationErrorView {
        match self {
            ValidationError::BodyConflict { block, whole, member } => {
                ValidationErrorView::BodyConflict { block: *block, whole: whole@, member: member@ }
            },
            ValidationError::DuplicateNewtypeBody { block, first, second } => {
                ValidationErrorView::DuplicateNewtypeBody {
                    block: *block,
                    first: first@,
                    second: second@,
                }
            },
            ValidationError::UnboundPathVariable { template, position, variable } => {
                ValidationErrorView::UnboundPathVariable {
                    template: *template,
                    position: *position as int,
                    variable: variable@,
                }
            },
            ValidationError::TemplateMismatch { template, variables, fields } => {
                ValidationErrorView::TemplateMismatch {
                    template: *template,
                    variables: *variables as int,
                    fields: *fields as int,
                }
            },
        }
    }
}

/// Why a description gives no endpoint. A schema that breaks a rule is
/// reported with the name of the endpoint.
#[derive(Debug)]
pub enum CompileError {
    Parse(ParseError),
    Validation { endpoint: String, error: ValidationError },
}

pub enum CompileErrorView {
    Parse(ParseError),
    Validation { endpoint: Seq<char>, error: ValidationErrorView },
}

impl DeepView for CompileError {
    type V = CompileErrorView;

    open spec fn deep_view(&self) -> CompileErrorView {
        match self {
            CompileError::Parse(e) => CompileErrorView::Parse(*e),
            CompileError::Validation { endpoint, error } => CompileErrorView::Validation {
                endpoint: endpoint@,
                error: error.deep_view(),
            },
        }
    }
}

/// Why what came over the wire gives no value.
#[derive(Debug)]
pub enum DecodeError {
    /// The path does not have the shape of the template.
    PathMismatch,
    /// The body is not what the struct's body strategy asks for.
    InvalidBody,
    /// No query pair has the name of this required field.
    MissingQuery(String),
    /// No header has the name of this field.
    MissingHeader(String),
    /// The body object has no member with the name of this required field.
    MissingMember(String),
    /// The member with this name holds a value of another kind than the field takes.
    InvalidMember(String),
    /// The object is not tagged as the variant that was asked for.
    WrongVariant,
}

pub enum DecodeErrorView {
    PathMismatch,
    InvalidBody,
    MissingQuery(Seq<char>),
    MissingHeader(Seq<char>),
    MissingMember(Seq<char>),
    InvalidMember(Seq<char>),
    WrongVariant,
}

impl DeepView for DecodeError {
    type V = DecodeErrorView;

    open spec fn deep_view(&self) -> DecodeErrorView {
        match self {
            DecodeError::PathMismatch => DecodeErrorView::PathMismatch,
            DecodeError::InvalidBody => DecodeErrorView::InvalidBody,
            DecodeError::MissingQuery(n) => DecodeErrorView::MissingQuery(n@),
            DecodeError::MissingHeader(n) => DecodeErrorView::MissingHeader(n@),
            DecodeError::MissingMember(n) => DecodeErrorView::MissingMember(n@),
            DecodeError::InvalidMember(n) => DecodeErrorView::InvalidMember(n@),
            DecodeError::WrongVariant => DecodeErrorView::WrongVariant,
        }
    }
}

} // verus!
