//! The shared failure taxonomy and diagnostic location used by both
//! engines: data errors found per cell, and the name-resolution errors the
//! external table-lookup collaborator reports in the same vocabulary.

use vstd::prelude::*;
use crate::text::dec_usize;
use crate::text::spec_dec;

verus! {

use vstd::string::*;

/// The reasons a value, a row, or a lookup could not be parsed.
#[derive(Debug, Clone, Copy, PartialEq, Eq, Structural)]
pub enum ParseErrorKind {
    InvalidValue,
    ValueMissing,
    InvalidTableName,
    InvalidSheetName,
}

/// Where a diagnostic location lives: in a named table or a named sheet.
#[derive(Debug, Clone, PartialEq)]
pub enum Context {
    Sheet(String),
    Table(String),
}

/// A location in a spreadsheet table or sheet: the offending cell's row and
/// column indices and its raw content text.
#[derive(Debug, Clone, PartialEq)]
pub struct XlsxLocation {
    pub context: Context,
    pub row: usize,
    pub col: usize,
    pub content: String,
}

/// A failed parse: the kind of failure, and where it happened when a cell
/// can be cited.
#[derive(Debug, Clone, PartialEq)]
pub struct ParseError {
    pub kind: ParseErrorKind,
    pub location: Option<XlsxLocation>,
}

/// The mathematical shape of a `Context`.
pub enum ContextV {
    Sheet(Seq<char>),
    Table(Seq<char>),
}

/// The mathematical shape of an `XlsxLocation`.
pub struct XlsxLocationV {
    pub context: ContextV,
    pub row: nat,
    pub col: nat,
    pub content: Seq<char>,
}

/// The mathematical shape of a `ParseError`.
pub struct ParseErrorV {
    pub kind: ParseErrorKind,
    pub location: Option<XlsxLocationV>,
}

impl View for Context {
    type V = ContextV;

    open spec fn view(&self) -> ContextV {
        match self {
            Context::Sheet(s) => ContextV::Sheet(s@),
            Context::Table(s) => ContextV::Table(s@),
        }
    }
}

impl View for XlsxLocation {
    type V = XlsxLocationV;

    open spec fn view(&self) -> XlsxLocationV {
        XlsxLocationV {
            context: self.context@,
            row: self.row as nat,
            col: self.col as nat,
            content: self.content@,
        }
    }
}

impl View for ParseError {
    type V = ParseErrorV;

    open spec fn view(&self) -> ParseErrorV {
        ParseErrorV {
            kind: self.kind,
            location: match self.location {
                Some(l) => Some(l@),
                None => None,
            },
        }
    }
}

/// The text naming a location's context.
pub open spec fn spec_context_text(c: ContextV) -> Seq<char> {
    match c {
        ContextV::Sheet(s) => "Sheet: "@ + s,
        ContextV::Table(s) => "Table: "@ + s,
    }
}

/// The diagnostic text of a location.
pub open spec fn spec_location_text(l: XlsxLocationV) -> Seq<char> {
    spec_context_text(l.context) + ", Row: "@ + spec_dec(l.row) + ", Col: "@ + spec_dec(l.col)
        + ", Value: "@ + l.content + " "@
}

/// The diagnostic message of a parse error.
pub open spec fn spec_message(e: ParseErrorV) -> Seq<char> {
    match e.location {
        None => match e.kind {
            ParseErrorKind::InvalidValue => "Invalid value."@,
            ParseErrorKind::ValueMissing => "Value is missing."@,
            ParseErrorKind::InvalidTableName => "Invalid table name."@,
            ParseErrorKind::InvalidSheetName => "Invalid sheet name."@,
        },
        Some(l) => match e.kind {
            ParseErrorKind::InvalidValue => "Invalid value. Location: "@ + spec_location_text(l),
            ParseErrorKind::ValueMissing => "Value is missing, Location: "@ + spec_location_text(
                l,
            ),
            ParseErrorKind::InvalidTableName => "Invalid table name, Location: "@
                + spec_location_text(l),
            ParseErrorKind::InvalidSheetName => "Invalid sheet name, Location: "@
                + spec_location_text(l),
        },
    }
}

impl Context {
    /// The text naming this context.
    pub fn text(&self) -> (r: String)
        ensures
            r@ == spec_context_text(self@),
    {
        match self {
            Context::Sheet(s) => {
                let mut r = "Sheet: ".to_owned();
                r.append(s.as_str());
                r
            },
            Context::Table(s) => {
                let mut r = "Table: ".to_owned();
                r.append(s.as_str());
                r
            },
        }
    }
}

impl XlsxLocation {
    /// The diagnostic text of this location.
    pub fn text(&self) -> (r: String)
        ensures
            r@ == spec_location_text(self@),
    {
        let mut r = self.context.text();
        r.append(", Row: ");
        let row_text = dec_usize(self.row);
        r.append(row_text.as_str());
        r.append(", Col: ");
        let col_text = dec_usize(self.col);
        r.append(col_text.as_str());
        r.append(", Value: ");
        r.append(self.content.as_str());
        r.append(" ");
        proof {
            assert(r@ =~= spec_location_text(self@));
        }
        r
    }
}

impl ParseError {
    /// The failure kind of this error.
    pub fn kind(&self) -> (k: ParseErrorKind)
        ensures
            k == self.kind,
    {
        self.kind
    }

    /// An error without a citable location.
    pub fn new(kind: ParseErrorKind) -> (e: ParseError)
        ensures
            e == (ParseError { kind, location: None }),
    {
        ParseError { kind, location: None }
    }

    /// An error citing a cell of the named table.
    pub fn new_in_table(
        kind: ParseErrorKind,
        row: usize,
        col: usize,
        content: String,
        table_name: String,
    ) -> (e: ParseError)
        ensures
            e == (ParseError {
                kind,
                location: Some(
                    XlsxLocation { context: Context::Table(table_name), row, col, content },
                ),
            }),
    {
        ParseError {
            kind,
            location: Some(XlsxLocation { context: Context::Table(table_name), row, col, content }),
        }
    }

    /// An error citing a cell of the named sheet.
    pub fn new_in_sheet(
        kind: ParseErrorKind,
        row: usize,
        col: usize,
        content: String,
        sheet_name: String,
    ) -> (e: ParseError)
        ensures
            e == (ParseError {
                kind,
                location: Some(
                    XlsxLocation { context: Context::Sheet(sheet_name), row, col, content },
                ),
            }),
    {
        ParseError {
            kind,
            location: Some(XlsxLocation { context: Context::Sheet(sheet_name), row, col, content }),
        }
    }

    /// The diagnostic message of this error.
    pub fn message(&self) -> (r: String)
        ensures
            r@ == spec_message(self@),
    {
        match &self.location {
            None => match self.kind {
                ParseErrorKind::InvalidValue => "Invalid value.".to_owned(),
                ParseErrorKind::ValueMissing => "Value is missing.".to_owned(),
                ParseErrorKind::InvalidTableName => "Invalid table name.".to_owned(),
                ParseErrorKind::InvalidSheetName => "Invalid sheet name.".to_owned(),
            },
            Some(l) => {
                let mut r = match self.kind {
                    ParseErrorKind::InvalidValue => "Invalid value. Location: ".to_owned(),
                    ParseErrorKind::ValueMissing => "Value is missing, Location: ".to_owned(),
                    ParseErrorKind::InvalidTableName => "Invalid table name, Location: ".to_owned(),
                    ParseErrorKind::InvalidSheetName => "Invalid sheet name, Location: ".to_owned(),
                };
                let loc_text = l.text();
                r.append(loc_text.as_str());
                r
            },
        }
    }
}

} // verus!
