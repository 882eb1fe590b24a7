//! The cell value model: one typed value of a table row, as handed in by
//! the external workbook collaborator.

use vstd::prelude::*;

verus! {

use vstd::string::*;

/// One typed cell of a table row.
///
/// A numeric cell carries its decimal text rendering: the engines only
/// transcribe or report that text, so the number's text form is the whole
/// of what they read of it.
#[derive(Debug, Clone, PartialEq)]
pub enum CellValue {
    Text(String),
    Number(String),
    Boolean(bool),
    Blank,
    Error(String),
}

/// The raw content text of a cell, as cited by diagnostic locations.
pub open spec fn spec_cell_content(c: CellValue) -> Seq<char> {
    match c {
        CellValue::Text(s) => s@,
        CellValue::Number(t) => t@,
        CellValue::Boolean(b) => if b {
            "true"@
        } else {
            "false"@
        },
        CellValue::Blank => Seq::empty(),
        CellValue::Error(e) => e@,
    }
}

impl CellValue {
    /// The raw content text of this cell, for diagnostics.
    pub fn content_text(&self) -> (r: String)
        ensures
            r@ == spec_cell_content(*self),
    {
        match self {
            CellValue::Text(s) => s.clone(),
            CellValue::Number(t) => t.clone(),
            CellValue::Boolean(b) => if *b {
                "true".to_owned()
            } else {
                "false".to_owned()
            },
            CellValue::Blank => String::new(),
            CellValue::Error(e) => e.clone(),
        }
    }
}

} // verus!
