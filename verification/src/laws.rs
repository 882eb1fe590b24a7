//! The stated laws of the two engines, proved against the same spec
//! functions their contracts use.

use vstd::prelude::*;
use crate::cell::CellValue;
use crate::error::ParseErrorKind;
use crate::record::RecItem;
use crate::record::RecLine;
use crate::record::repr_of;
use crate::record::spec_field_text;
use crate::record::spec_item_of;
use crate::record::spec_items;
use crate::record::spec_items_of;
use crate::record::spec_line_of;
use crate::record::spec_lines_of;
use crate::row::spec_cell_error;
use crate::row::spec_convert;
use crate::row::spec_parse_slots;
use crate::schema::FieldPropsV;
use crate::schema::TypePropsV;
use crate::schema::spec_is_single;
use crate::schema::wf;
use crate::schema::wf_field;
use crate::text::spec_dec;
use crate::value::ValueV;
use crate::value::spec_repr_value;

verus! {

/// A field declaring `subst` contributes no line and no item of its own:
/// in either mode its whole effect on the output is the queued whole-text
/// replacement of its placeholder.
pub proof fn lemma_subst_field_emits_nothing(f: FieldPropsV, v: ValueV)
    requires
        f.subst is Some,
    ensures
        spec_line_of(f, v) is None,
        spec_item_of(f, v) is None,
{
}

/// How many `field(...)` lines a line sequence holds.
pub open spec fn count_field_lines(ls: Seq<RecLine>) -> int
    decreases ls.len(),
{
    if ls.len() == 0 {
        0
    } else {
        count_field_lines(ls.drop_last()) + (if ls.last() is FieldLine {
            1int
        } else {
            0int
        })
    }
}

/// How many record blocks an item sequence holds.
pub open spec fn count_blocks(its: Seq<RecItem>) -> int
    decreases its.len(),
{
    if its.len() == 0 {
        0
    } else {
        count_blocks(its.drop_last()) + (if its.last() is Block {
            1int
        } else {
            0int
        })
    }
}

/// How many standalone lines an item sequence holds.
pub open spec fn count_raw_items(its: Seq<RecItem>) -> int
    decreases its.len(),
{
    if its.len() == 0 {
        0
    } else {
        count_raw_items(its.drop_last()) + (if its.last() is Raw {
            1int
        } else {
            0int
        })
    }
}

/// How many fields carry the field-tag rule: no substitution role, no
/// format override, an output field tag.
pub open spec fn count_named_fields(fields: Seq<FieldPropsV>) -> int
    decreases fields.len(),
{
    if fields.len() == 0 {
        0
    } else {
        count_named_fields(fields.drop_last()) + (if fields.last().subst is None
            && fields.last().format is None && fields.last().field_name is Some {
            1int
        } else {
            0int
        })
    }
}

/// How many fields carry a format override rule.
pub open spec fn count_fmt_fields(fields: Seq<FieldPropsV>) -> int
    decreases fields.len(),
{
    if fields.len() == 0 {
        0
    } else {
        count_fmt_fields(fields.drop_last()) + (if fields.last().subst is None
            && fields.last().format is Some {
            1int
        } else {
            0int
        })
    }
}

proof fn lemma_lines_counts(fields: Seq<FieldPropsV>, values: Seq<ValueV>)
    requires
        fields.len() == values.len(),
    ensures
        count_field_lines(spec_lines_of(fields, values)) == count_named_fields(fields),
    decreases fields.len(),
{
    if fields.len() > 0 {
        lemma_lines_counts(fields.drop_last(), values.drop_last());
        let prev = spec_lines_of(fields.drop_last(), values.drop_last());
        match spec_line_of(fields.last(), values.last()) {
            Some(l) => {
                assert((prev + seq![l]).drop_last() =~= prev);
                assert((prev + seq![l]).last() == l);
            },
            None => {
                assert(prev + Seq::<RecLine>::empty() =~= prev);
            },
        }
    }
}

/// For a Single-Global-Record type, exactly one `record(...)` block is
/// emitted per projection, and it holds exactly one `field(...)` line per
/// field that carries the field-tag rule (no substitution role, no format
/// override).
pub proof fn lemma_single_record_structure(tp: TypePropsV, values: Seq<ValueV>)
    requires
        spec_is_single(tp),
        values.len() == tp.fields.len(),
    ensures
        spec_items(tp, values).len() == 1,
        spec_items(tp, values)[0] is Block,
        spec_items(tp, values)[0]->Block_lines == spec_lines_of(tp.fields, values),
        count_field_lines(spec_items(tp, values)[0]->Block_lines) == count_named_fields(tp.fields),
{
    lemma_lines_counts(tp.fields, values);
}

proof fn lemma_items_counts(tp: TypePropsV, fields: Seq<FieldPropsV>, values: Seq<ValueV>)
    requires
        fields.len() == values.len(),
        forall|i: int| 0 <= i < fields.len() ==> wf_field(tp, #[trigger] fields[i]),
        !spec_is_single(tp),
    ensures
        count_blocks(spec_items_of(fields, values)) == count_named_fields(fields),
        count_raw_items(spec_items_of(fields, values)) == count_fmt_fields(fields),
    decreases fields.len(),
{
    if fields.len() > 0 {
        assert(forall|i: int|
            0 <= i < fields.drop_last().len() ==> wf_field(
                tp,
                #[trigger] fields.drop_last()[i],
            ));
        lemma_items_counts(tp, fields.drop_last(), values.drop_last());
        let prev = spec_items_of(fields.drop_last(), values.drop_last());
        assert(wf_field(tp, fields[fields.len() - 1]));
        match spec_item_of(fields.last(), values.last()) {
            Some(it) => {
                assert((prev + seq![it]).drop_last() =~= prev);
                assert((prev + seq![it]).last() == it);
            },
            None => {
                assert(prev + Seq::<RecItem>::empty() =~= prev);
            },
        }
    }
}

/// For a Multiple-Records type, the number of emitted blocks equals the
/// number of fields carrying the field-tag rule backed by their own record
/// name/type pair, and one standalone line is emitted per field carrying a
/// format override.
pub proof fn lemma_multiple_records_structure(tp: TypePropsV, values: Seq<ValueV>)
    requires
        wf(tp),
        !spec_is_single(tp),
        values.len() == tp.fields.len(),
    ensures
        count_blocks(spec_items(tp, values)) == count_named_fields(tp.fields),
        count_raw_items(spec_items(tp, values)) == count_fmt_fields(tp.fields),
{
    lemma_items_counts(tp, tp.fields, values);
}

proof fn lemma_no_subst_no_pairs(
    fields: Seq<FieldPropsV>,
    values: Seq<ValueV>,
    i: int,
)
    requires
        0 <= i,
        forall|j: int| 0 <= j < fields.len() ==> (#[trigger] fields[j]).subst is None,
    ensures
        crate::record::spec_subst_pairs(fields, values, i) == Seq::<(Seq<char>, Seq<char>)>::empty(),
    decreases fields.len() - i,
{
    if i < fields.len() && fields.len() == values.len() {
        lemma_no_subst_no_pairs(fields, values, i + 1);
    }
}

/// A type without substitution fields projects to exactly the rendered
/// items: no whole-text rewriting takes place.
pub proof fn lemma_no_subst_projects_verbatim(tp: TypePropsV, values: Seq<ValueV>)
    requires
        forall|j: int| 0 <= j < tp.fields.len() ==> (#[trigger] tp.fields[j]).subst is None,
    ensures
        crate::record::spec_project(tp, values) == crate::record::spec_render_items(
            spec_items(tp, values),
        ),
{
    lemma_no_subst_no_pairs(tp.fields, values, 0);
}

/// A `repr`-cast enumerated value renders as the decimal text of its cast
/// ordinal, whatever its display name; at ordinal 2 that text is `"2"`,
/// never the variant's display name.
pub proof fn lemma_repr_renders_ordinal(f: FieldPropsV, name: Seq<char>, ordinal: nat)
    requires
        f.repr is Some,
    ensures
        spec_field_text(f, ValueV::Variant { name, ordinal }) == spec_dec(
            spec_repr_value(repr_of(f).unwrap(), ordinal),
        ),
        ordinal == 2 ==> spec_field_text(f, ValueV::Variant { name, ordinal }) == "2"@,
{
    if ordinal == 2 {
        assert(spec_repr_value(repr_of(f).unwrap(), 2) == 2);
        reveal_strlit("2");
        assert(spec_dec(2nat) =~= "2"@);
    }
}

/// A blank cell converts to a missing value for every element type.
pub proof fn lemma_blank_is_missing(e: crate::schema::ElemTypeV)
    ensures
        spec_convert(e, CellValue::Blank) == Err::<ValueV, _>(ParseErrorKind::ValueMissing),
{
}

/// A blank cell consumed at slot `k` of a field: an optional field absorbs
/// it into an absent slot and goes on; a required field aborts with a
/// missing-value error citing exactly the cell's row and column.
pub proof fn lemma_blank_cell_optional_vs_required(
    f: FieldPropsV,
    row: Seq<CellValue>,
    start: int,
    k: int,
    rownum: nat,
    table: Seq<char>,
)
    requires
        0 <= k < f.arity,
        row[start + k] == CellValue::Blank,
    ensures
        f.optional ==> spec_parse_slots(f, row, start, k, rownum, table) == (match spec_parse_slots(
            f,
            row,
            start,
            k + 1,
            rownum,
            table,
        ) {
            Ok(rest) => Ok::<_, crate::error::ParseErrorV>(seq![None::<ValueV>] + rest),
            Err(e) => Err(e),
        }),
        !f.optional ==> spec_parse_slots(f, row, start, k, rownum, table) == Err::<
            Seq<Option<ValueV>>,
            _,
        >(
            spec_cell_error(
                ParseErrorKind::ValueMissing,
                rownum,
                (start + k) as nat,
                CellValue::Blank,
                table,
            ),
        ),
{
}

/// The slot a consumed cell yields when its field succeeds: its converted
/// value, or an absent slot where the conversion failed and was absorbed.
pub open spec fn spec_slot_of(f: FieldPropsV, c: CellValue) -> Option<ValueV> {
    match spec_convert(f.elem, c) {
        Ok(v) => Some(v),
        Err(_) => None,
    }
}

proof fn lemma_slots_shape_from(
    f: FieldPropsV,
    row: Seq<CellValue>,
    start: int,
    k: int,
    rownum: nat,
    table: Seq<char>,
)
    requires
        0 <= k <= f.arity,
    ensures
        spec_parse_slots(f, row, start, k, rownum, table) matches Ok(slots) ==> slots.len()
            == f.arity - k && (forall|j: int|
            #![auto]
            0 <= j < slots.len() ==> slots[j] == spec_slot_of(f, row[start + k + j])),
    decreases f.arity - k,
{
    if k < f.arity {
        lemma_slots_shape_from(f, row, start, k + 1, rownum, table);
    }
}

/// A fixed-size array field of arity `N` consumes exactly `N` consecutive
/// cells in row order: when it succeeds, it yields one slot per cell, and
/// slot `j` is derived from the cell at column `start + j` — index 0 from
/// the first consumed cell, index 1 from the second, and so on.
pub proof fn lemma_array_field_consumes_in_order(
    f: FieldPropsV,
    row: Seq<CellValue>,
    start: int,
    rownum: nat,
    table: Seq<char>,
)
    ensures
        spec_parse_slots(f, row, start, 0, rownum, table) matches Ok(slots) ==> slots.len()
            == f.arity && (forall|j: int|
            #![auto]
            0 <= j < slots.len() ==> slots[j] == spec_slot_of(f, row[start + j])),
{
    lemma_slots_shape_from(f, row, start, 0, rownum, table);
}

} // verus!
