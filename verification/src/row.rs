//! The row deserialization engine: an ordered row of typed cell values is
//! consumed, field by field in declaration order, into a typed object or
//! the first located parse error.
//!
//! A forward cursor walks the row; each field consumes exactly its arity of
//! consecutive cells. An optional field absorbs only a missing value into
//! an explicit absent slot; any other failure aborts the row at once, with
//! the table name, row index, column index and raw cell content.

use vstd::prelude::*;
use crate::cell::CellValue;
use crate::cell::spec_cell_content;
use crate::error::ContextV;
use crate::error::ParseError;
use crate::error::ParseErrorKind;
use crate::error::ParseErrorV;
use crate::error::XlsxLocationV;
use crate::schema::ElemType;
use crate::schema::ElemTypeV;
use crate::schema::FieldPropsV;
use crate::schema::TypeProps;
use crate::schema::TypePropsV;
use crate::schema::sum_arities;
use crate::schema::wf_rows;
use crate::text::str_eq;
use crate::value::Value;
use crate::value::ValueV;

verus! {

use vstd::string::*;

/// The position of `s` among the declared variant names from `i` on:
/// the first case-sensitive match wins.
pub open spec fn spec_name_index_from(names: Seq<Seq<char>>, s: Seq<char>, i: int) -> Option<int>
    decreases names.len() - i,
{
    if i < 0 || i >= names.len() {
        None
    } else if names[i] == s {
        Some(i)
    } else {
        spec_name_index_from(names, s, i + 1)
    }
}

/// Conversion of one cell for a target element type: a numeric cell for a
/// numeric target, a textual cell for a textual target, a textual cell
/// matching a variant name for an enumerated target; a blank cell is a
/// missing value; anything else is an invalid value.
pub open spec fn spec_convert(e: ElemTypeV, c: CellValue) -> Result<ValueV, ParseErrorKind> {
    match e {
        ElemTypeV::Numeric => match c {
            CellValue::Number(t) => Ok(ValueV::Number(t@)),
            CellValue::Blank => Err(ParseErrorKind::ValueMissing),
            _ => Err(ParseErrorKind::InvalidValue),
        },
        ElemTypeV::Textual => match c {
            CellValue::Text(s) => Ok(ValueV::Text(s@)),
            CellValue::Blank => Err(ParseErrorKind::ValueMissing),
            _ => Err(ParseErrorKind::InvalidValue),
        },
        ElemTypeV::Enumerated(names) => match c {
            CellValue::Text(s) => match spec_name_index_from(names, s@, 0) {
                Some(i) => Ok(ValueV::Variant { name: s@, ordinal: i as nat }),
                None => Err(ParseErrorKind::InvalidValue),
            },
            CellValue::Blank => Err(ParseErrorKind::ValueMissing),
            _ => Err(ParseErrorKind::InvalidValue),
        },
    }
}

impl ElemType {
    /// Converts one cell to this element type, or says why it cannot be.
    pub fn from_xlsx_data(&self, data: &CellValue) -> (r: Result<Value, ParseErrorKind>)
        ensures
            match r {
                Ok(v) => spec_convert(self@, *data) == Ok::<_, ParseErrorKind>(v@),
                Err(k) => spec_convert(self@, *data) == Err::<ValueV, _>(k),
            },
    {
        match self {
            ElemType::Numeric => match data {
                CellValue::Number(t) => Ok(Value::Number(t.clone())),
                CellValue::Blank => Err(ParseErrorKind::ValueMissing),
                _ => Err(ParseErrorKind::InvalidValue),
            },
            ElemType::Textual => match data {
                CellValue::Text(s) => Ok(Value::Text(s.clone())),
                CellValue::Blank => Err(ParseErrorKind::ValueMissing),
                _ => Err(ParseErrorKind::InvalidValue),
            },
            ElemType::Enumerated(names) => match data {
                CellValue::Text(s) => {
                    let ghost namesv: Seq<Seq<char>> = match self@ {
                        ElemTypeV::Enumerated(ns) => ns,
                        _ => Seq::empty(),
                    };
                    proof {
                        assert(self@ == ElemTypeV::Enumerated(namesv));
                        assert(namesv.len() == names@.len());
                        assert(forall|j: int|
                            0 <= j < names@.len() ==> namesv[j] == names@[j]@);
                    }
                    let mut i: usize = 0;
                    while i < names.len()
                        invariant
                            self@ == ElemTypeV::Enumerated(namesv),
                            *data == CellValue::Text(*s),
                            namesv.len() == names@.len(),
                            forall|j: int| 0 <= j < names@.len() ==> namesv[j] == names@[j]@,
                            0 <= i <= names@.len(),
                            spec_name_index_from(namesv, s@, 0) == spec_name_index_from(
                                namesv,
                                s@,
                                i as int,
                            ),
                        decreases names@.len() - i,
                    {
                        proof {
                            assert(namesv[i as int] == names@[i as int]@);
                        }
                        if str_eq(names[i].as_str(), s.as_str()) {
                            proof {
                                assert(spec_name_index_from(namesv, s@, i as int) == Some(
                                    i as int,
                                ));
                                assert(spec_name_index_from(namesv, s@, 0) == Some(i as int));
                                assert(spec_convert(self@, *data) == Ok::<_, ParseErrorKind>(
                                    ValueV::Variant { name: s@, ordinal: i as nat },
                                ));
                            }
                            return Ok(Value::Variant { name: s.clone(), ordinal: i });
                        }
                        i += 1;
                    }
                    Err(ParseErrorKind::InvalidValue)
                },
                CellValue::Blank => Err(ParseErrorKind::ValueMissing),
                _ => Err(ParseErrorKind::InvalidValue),
            },
        }
    }
}

/// The error citing the cell at the given row and absolute column of the
/// named table.
pub open spec fn spec_cell_error(
    kind: ParseErrorKind,
    rownum: nat,
    col: nat,
    c: CellValue,
    table: Seq<char>,
) -> ParseErrorV {
    ParseErrorV {
        kind,
        location: Some(
            XlsxLocationV {
                context: ContextV::Table(table),
                row: rownum,
                col,
                content: spec_cell_content(c),
            },
        ),
    }
}

/// The slots of one field, consuming the cells at `start + k` for the slot
/// positions `k` upward: a converted value per cell, an absent slot where
/// an optional field meets a missing value, else the first cell's error.
pub open spec fn spec_parse_slots(
    f: FieldPropsV,
    row: Seq<CellValue>,
    start: int,
    k: int,
    rownum: nat,
    table: Seq<char>,
) -> Result<Seq<Option<ValueV>>, ParseErrorV>
    decreases f.arity - k,
{
    if k < 0 || k >= f.arity {
        Ok(Seq::empty())
    } else {
        let c = row[start + k];
        match spec_convert(f.elem, c) {
            Ok(v) => match spec_parse_slots(f, row, start, k + 1, rownum, table) {
                Err(e) => Err(e),
                Ok(rest) => Ok(seq![Some(v)] + rest),
            },
            Err(kind) => if kind == ParseErrorKind::ValueMissing && f.optional {
                match spec_parse_slots(f, row, start, k + 1, rownum, table) {
                    Err(e) => Err(e),
                    Ok(rest) => Ok(seq![None::<ValueV>] + rest),
                }
            } else {
                Err(spec_cell_error(kind, rownum, (start + k) as nat, c, table))
            },
        }
    }
}

/// The object fields from position `fi` on, each consuming its arity of
/// cells from the cursor `col`; the first error aborts the row.
pub open spec fn spec_parse_fields(
    fields: Seq<FieldPropsV>,
    fi: int,
    row: Seq<CellValue>,
    col: int,
    rownum: nat,
    table: Seq<char>,
) -> Result<Seq<Seq<Option<ValueV>>>, ParseErrorV>
    decreases fields.len() - fi,
{
    if fi < 0 || fi >= fields.len() {
        Ok(Seq::empty())
    } else {
        match spec_parse_slots(fields[fi], row, col, 0, rownum, table) {
            Err(e) => Err(e),
            Ok(slots) => match spec_parse_fields(
                fields,
                fi + 1,
                row,
                col + fields[fi].arity,
                rownum,
                table,
            ) {
                Err(e) => Err(e),
                Ok(rest) => Ok(seq![slots] + rest),
            },
        }
    }
}

/// A failed row: the row's length does not match the schema's total arity
/// (a usage error, distinct from any per-cell failure), or the first cell
/// error.
#[derive(Debug, Clone, PartialEq)]
pub enum RowError {
    LengthMismatch { expected: usize, found: usize },
    Cell(ParseError),
}

/// The mathematical shape of a `RowError`.
pub enum RowErrorV {
    LengthMismatch { expected: nat, found: nat },
    Cell(ParseErrorV),
}

impl View for RowError {
    type V = RowErrorV;

    open spec fn view(&self) -> RowErrorV {
        match self {
            RowError::LengthMismatch { expected, found } => RowErrorV::LengthMismatch {
                expected: expected as nat,
                found: found as nat,
            },
            RowError::Cell(e) => RowErrorV::Cell(e@),
        }
    }
}

/// One row deserialized against a descriptor: the row's length must equal
/// the descriptor's total arity, then the fields consume it in order.
pub open spec fn spec_from_row(
    tp: TypePropsV,
    row: Seq<CellValue>,
    rownum: nat,
    table: Seq<char>,
) -> Result<Seq<Seq<Option<ValueV>>>, RowErrorV> {
    if row.len() != sum_arities(tp.fields, 0) {
        Err(
            RowErrorV::LengthMismatch { expected: sum_arities(tp.fields, 0), found: row.len() },
        )
    } else {
        match spec_parse_fields(tp.fields, 0, row, 0, rownum, table) {
            Err(e) => Err(RowErrorV::Cell(e)),
            Ok(obj) => Ok(obj),
        }
    }
}

/// The view of one field's slots.
pub open spec fn slots_view(s: Seq<Option<Value>>) -> Seq<Option<ValueV>> {
    s.map_values(
        |x: Option<Value>|
            match x {
                Some(v) => Some(v@),
                None => None,
            },
    )
}

/// The view of a deserialized object.
pub open spec fn obj_view(o: Seq<Vec<Option<Value>>>) -> Seq<Seq<Option<ValueV>>> {
    o.map_values(|f: Vec<Option<Value>>| slots_view(f@))
}

/// The view of a deserialized table.
pub open spec fn table_view(t: Seq<Vec<Vec<Option<Value>>>>) -> Seq<Seq<Seq<Option<ValueV>>>> {
    t.map_values(|o: Vec<Vec<Option<Value>>>| obj_view(o@))
}

/// The rows of one table, each deserialized under its own row index; the
/// first failed row aborts the table.
pub open spec fn spec_parse_table_from(
    tp: TypePropsV,
    rows: Seq<Seq<CellValue>>,
    i: int,
    table: Seq<char>,
) -> Result<Seq<Seq<Seq<Option<ValueV>>>>, RowErrorV>
    decreases rows.len() - i,
{
    if i < 0 || i >= rows.len() {
        Ok(Seq::empty())
    } else {
        match spec_from_row(tp, rows[i], i as nat, table) {
            Err(e) => Err(e),
            Ok(obj) => match spec_parse_table_from(tp, rows, i + 1, table) {
                Err(e) => Err(e),
                Ok(rest) => Ok(seq![obj] + rest),
            },
        }
    }
}

/// The views of a row list.
pub open spec fn rows_view(rows: Seq<Vec<CellValue>>) -> Seq<Seq<CellValue>> {
    rows.map_values(|r: Vec<CellValue>| r@)
}

impl TypeProps {
    /// The cells one row must supply for this descriptor: the sum of the
    /// declared field arities.
    pub fn total_arity(&self) -> (r: usize)
        requires
            sum_arities(self@.fields, 0) <= usize::MAX as nat,
        ensures
            r as nat == sum_arities(self@.fields, 0),
    {
        let ghost fields = self@.fields;
        let mut total: usize = 0;
        let mut k: usize = 0;
        while k < self.fields.len()
            invariant
                fields == self@.fields,
                self@.fields.len() == self.fields@.len(),
                sum_arities(fields, 0) <= usize::MAX as nat,
                0 <= k <= fields.len(),
                sum_arities(fields, 0) == total + sum_arities(fields, k as int),
            decreases self.fields@.len() - k,
        {
            proof {
                assert(fields[k as int] == self.fields@[k as int]@);
                assert(sum_arities(fields, k as int) == fields[k as int].arity + sum_arities(
                    fields,
                    k as int + 1,
                ));
            }
            total += self.fields[k].arity;
            k += 1;
        }
        total
    }

    /// Deserializes one row into an object: per field, in declaration
    /// order, exactly `arity` consecutive cells, converted for the field's
    /// element type; an optional field absorbs a missing value into an
    /// absent slot; any other failure aborts the row with its location.
    /// A row whose length differs from the descriptor's total arity is
    /// rejected outright as a length mismatch.
    pub fn from_xlsx_row(&self, row: &Vec<CellValue>, row_num: usize, table_name: &str) -> (r:
        Result<Vec<Vec<Option<Value>>>, RowError>)
        requires
            wf_rows(self@),
        ensures
            match r {
                Ok(obj) => spec_from_row(self@, row@, row_num as nat, table_name@) == Ok::<
                    _,
                    RowErrorV,
                >(obj_view(obj@)),
                Err(e) => spec_from_row(self@, row@, row_num as nat, table_name@) == Err::<
                    Seq<Seq<Option<ValueV>>>,
                    _,
                >(e@),
            },
    {
        let ghost fields = self@.fields;
        let ghost rn = row_num as nat;
        let ghost tn = table_name@;
        let total = self.total_arity();
        if row.len() != total {
            return Err(RowError::LengthMismatch { expected: total, found: row.len() });
        }
        let mut obj: Vec<Vec<Option<Value>>> = Vec::new();
        let mut col: usize = 0;
        let mut fi: usize = 0;
        proof {
            assert(obj_view(obj@) =~= Seq::<Seq<Option<ValueV>>>::empty());
        }
        while fi < self.fields.len()
            invariant
                wf_rows(self@),
                fields == self@.fields,
                rn == row_num as nat,
                tn == table_name@,
                self@.fields.len() == self.fields@.len(),
                row@.len() == sum_arities(fields, 0),
                0 <= fi <= fields.len(),
                col + sum_arities(fields, fi as int) == sum_arities(fields, 0),
                spec_parse_fields(fields, 0, row@, 0, rn, tn) == (match spec_parse_fields(
                    fields,
                    fi as int,
                    row@,
                    col as int,
                    rn,
                    tn,
                ) {
                    Ok(rest) => Ok::<_, ParseErrorV>(obj_view(obj@) + rest),
                    Err(e) => Err::<Seq<Seq<Option<ValueV>>>, _>(e),
                }),
            decreases self.fields@.len() - fi,
        {
            proof {
                assert(fields[fi as int] == self.fields@[fi as int]@);
                assert(sum_arities(fields, fi as int) == fields[fi as int].arity + sum_arities(
                    fields,
                    fi as int + 1,
                ));
            }
            let f = &self.fields[fi];
            let ghost fv = fields[fi as int];
            let arity = f.arity;
            let mut slots: Vec<Option<Value>> = Vec::new();
            let mut k: usize = 0;
            proof {
                assert(slots_view(slots@) =~= Seq::<Option<ValueV>>::empty());
            }
            while k < arity
                invariant
                    wf_rows(self@),
                    fields == self@.fields,
                    rn == row_num as nat,
                    tn == table_name@,
                    self@.fields.len() == self.fields@.len(),
                    row@.len() == sum_arities(fields, 0),
                    0 <= fi < fields.len(),
                    f == &self.fields[fi as int],
                    fv == fields[fi as int],
                    arity as nat == fv.arity,
                    col + sum_arities(fields, fi as int) == sum_arities(fields, 0),
                    sum_arities(fields, fi as int) == fv.arity + sum_arities(
                        fields,
                        fi as int + 1,
                    ),
                    0 <= k <= arity,
                    spec_parse_fields(fields, 0, row@, 0, rn, tn) == (match spec_parse_fields(
                        fields,
                        fi as int,
                        row@,
                        col as int,
                        rn,
                        tn,
                    ) {
                        Ok(rest) => Ok::<_, ParseErrorV>(obj_view(obj@) + rest),
                        Err(e) => Err::<Seq<Seq<Option<ValueV>>>, _>(e),
                    }),
                    spec_parse_slots(fv, row@, col as int, 0, rn, tn) == (match spec_parse_slots(
                        fv,
                        row@,
                        col as int,
                        k as int,
                        rn,
                        tn,
                    ) {
                        Ok(rest) => Ok::<_, ParseErrorV>(slots_view(slots@) + rest),
                        Err(e) => Err::<Seq<Option<ValueV>>, _>(e),
                    }),
                decreases arity - k,
            {
                let cell = &row[col + k];
                let ghost pre = slots@;
                match f.elem.from_xlsx_data(cell) {
                    Ok(v) => {
                        let ghost vv = v@;
                        slots.push(Some(v));
                        proof {
                            assert(slots_view(slots@) =~= slots_view(pre) + seq![
                                Some(vv),
                            ]);
                            assert forall|rest: Seq<Option<ValueV>>|
                                (slots_view(pre) + seq![Some(vv)]) + rest =~= slots_view(pre)
                                    + (seq![Some(vv)] + rest) by {}
                        }
                    },
                    Err(kind) => {
                        let absorb = f.optional && match kind {
                            ParseErrorKind::ValueMissing => true,
                            _ => false,
                        };
                        if absorb {
                            slots.push(None);
                            proof {
                                assert(slots_view(slots@) =~= slots_view(pre) + seq![
                                    None::<ValueV>,
                                ]);
                                assert forall|rest: Seq<Option<ValueV>>|
                                    (slots_view(pre) + seq![None::<ValueV>]) + rest =~= slots_view(
                                        pre,
                                    ) + (seq![None::<ValueV>] + rest) by {}
                            }
                        } else {
                            let content = cell.content_text();
                            let e = ParseError::new_in_table(
                                kind,
                                row_num,
                                col + k,
                                content,
                                table_name.to_owned(),
                            );
                            proof {
                                assert(e@ == spec_cell_error(
                                    kind,
                                    rn,
                                    (col + k) as nat,
                                    row@[col as int + k as int],
                                    tn,
                                ));
                                assert(spec_parse_slots(fv, row@, col as int, k as int, rn, tn)
                                    == Err::<Seq<Option<ValueV>>, _>(e@));
                            }
                            return Err(RowError::Cell(e));
                        }
                    },
                }
                k += 1;
            }
            let ghost slotsv = slots_view(slots@);
            proof {
                assert(spec_parse_slots(fv, row@, col as int, arity as int, rn, tn) == Ok::<
                    _,
                    ParseErrorV,
                >(Seq::<Option<ValueV>>::empty()));
                assert(slotsv + Seq::<Option<ValueV>>::empty() =~= slotsv);
                assert(spec_parse_slots(fv, row@, col as int, 0, rn, tn) == Ok::<
                    _,
                    ParseErrorV,
                >(slotsv));
            }
            let ghost objpre = obj@;
            obj.push(slots);
            col += arity;
            proof {
                assert(obj_view(obj@) =~= obj_view(objpre) + seq![slotsv]);
                assert forall|rest: Seq<Seq<Option<ValueV>>>|
                    (obj_view(objpre) + seq![slotsv]) + rest =~= obj_view(objpre) + (seq![slotsv]
                        + rest) by {}
            }
            fi += 1;
        }
        proof {
            assert(spec_parse_fields(fields, fields.len() as int, row@, col as int, rn, tn)
                == Ok::<_, ParseErrorV>(Seq::<Seq<Option<ValueV>>>::empty()));
            assert(obj_view(obj@) + Seq::<Seq<Option<ValueV>>>::empty() =~= obj_view(obj@));
        }
        Ok(obj)
    }

    /// Deserializes every row of a table, in order, each under its own row
    /// index; the first failed row aborts the whole table.
    pub fn parse_table(&self, rows: &Vec<Vec<CellValue>>, table_name: &str) -> (r: Result<
        Vec<Vec<Vec<Option<Value>>>>,
        RowError,
    >)
        requires
            wf_rows(self@),
        ensures
            match r {
                Ok(objs) => spec_parse_table_from(self@, rows_view(rows@), 0, table_name@) == Ok::<
                    _,
                    RowErrorV,
                >(table_view(objs@)),
                Err(e) => spec_parse_table_from(self@, rows_view(rows@), 0, table_name@) == Err::<
                    Seq<Seq<Seq<Option<ValueV>>>>,
                    _,
                >(e@),
            },
    {
        let ghost rsv = rows_view(rows@);
        let ghost tn = table_name@;
        let mut objs: Vec<Vec<Vec<Option<Value>>>> = Vec::new();
        let mut i: usize = 0;
        proof {
            assert(table_view(objs@) =~= Seq::<Seq<Seq<Option<ValueV>>>>::empty());
        }
        while i < rows.len()
            invariant
                wf_rows(self@),
                rsv == rows_view(rows@),
                tn == table_name@,
                rsv.len() == rows@.len(),
                0 <= i <= rows@.len(),
                spec_parse_table_from(self@, rsv, 0, tn) == (match spec_parse_table_from(
                    self@,
                    rsv,
                    i as int,
                    tn,
                ) {
                    Ok(rest) => Ok::<_, RowErrorV>(table_view(objs@) + rest),
                    Err(e) => Err::<Seq<Seq<Seq<Option<ValueV>>>>, _>(e),
                }),
            decreases rows@.len() - i,
        {
            proof {
                assert(rsv[i as int] == rows@[i as int]@);
            }
            match self.from_xlsx_row(&rows[i], i, table_name) {
                Ok(obj) => {
                    let ghost objv = obj_view(obj@);
                    let ghost pre = objs@;
                    objs.push(obj);
                    proof {
                        assert(table_view(objs@) =~= table_view(pre) + seq![objv]);
                        assert forall|rest: Seq<Seq<Seq<Option<ValueV>>>>|
                            (table_view(pre) + seq![objv]) + rest =~= table_view(pre) + (seq![objv]
                                + rest) by {}
                    }
                },
                Err(e) => {
                    return Err(e);
                },
            }
            i += 1;
        }
        proof {
            assert(spec_parse_table_from(self@, rsv, rsv.len() as int, tn) == Ok::<
                _,
                RowErrorV,
            >(Seq::<Seq<Seq<Option<ValueV>>>>::empty()));
            assert(table_view(objs@) + Seq::<Seq<Seq<Option<ValueV>>>>::empty() =~= table_view(
                objs@,
            ));
        }
        Ok(objs)
    }
}

} // verus!
