//! The errors of the crate.

use vstd::prelude::*;

verus! {

/// Why a document could not be read or rendered.
#[derive(Debug, PartialEq, Eq)]
pub enum CommErr {
    /// The type tag of a node or property names no kind that is known: the
    /// tag.
    UnsupportedKind(String),
    /// A node that bears text has no `rich_text` array.
    UnsupportedFormat,
    /// A required field is absent: the field's name.
    MissingField(String),
    /// A field is there, but its value is of the wrong JSON type: the
    /// field's name.
    WrongFieldType(String),
    /// The remote service failed: its status code and message.
    FetchErr(u16, String),
    /// A text is not JSON: the parser's message.
    JsonErr(String),
    /// A text is not an RFC 3339 time: the text.
    TimeTransErr(String),
    /// Any other failure: what failed.
    CErr(String),
}

/// An error as a mathematical value.
pub enum CommErrView {
    UnsupportedKind(Seq<char>),
    UnsupportedFormat,
    MissingField(Seq<char>),
    WrongFieldType(Seq<char>),
    FetchErr(u16, Seq<char>),
    JsonErr(Seq<char>),
    TimeTransErr(Seq<char>),
    CErr(Seq<char>),
}

impl View for CommErr {
    type V = CommErrView;

    open spec fn view(&self) -> CommErrView {
        match self {
            CommErr::UnsupportedKind(t) => CommErrView::UnsupportedKind(t@),
            CommErr::UnsupportedFormat => CommErrView::UnsupportedFormat,
            CommErr::MissingField(t) => CommErrView::MissingField(t@),
            CommErr::WrongFieldType(t) => CommErrView::WrongFieldType(t@),
            CommErr::FetchErr(code, t) => CommErrView::FetchErr(*code, t@),
            CommErr::JsonErr(t) => CommErrView::JsonErr(t@),
            CommErr::TimeTransErr(t) => CommErrView::TimeTransErr(t@),
            CommErr::CErr(t) => CommErrView::CErr(t@),
        }
    }
}

/// A failure that names the node at which it arose.
#[derive(Debug, PartialEq, Eq)]
pub struct PopulateErr {
    /// The identifier of the node that failed: of the raw node that could
    /// not be read, empty where it names none, or of the node whose
    /// children could not be fetched.
    pub node: String,
    pub cause: CommErr,
}

/// A failure at a node as a mathematical value.
pub struct PopulateErrView {
    pub node: Seq<char>,
    pub cause: CommErrView,
}

impl View for PopulateErr {
    type V = PopulateErrView;

    open spec fn view(&self) -> PopulateErrView {
        PopulateErrView { node: self.node@, cause: self.cause@ }
    }
}

} // verus!
