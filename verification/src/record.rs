//! The record projection engine: a well-formed type descriptor plus an
//! aligned list of runtime values is rendered into record text.
//!
//! The output is modelled as a sequence of emitted items — record blocks
//! and standalone lines — rendered to text and then rewritten by the
//! queued substitution passes, in declaration order, over the whole text.

use vstd::prelude::*;
use crate::schema::FieldProps;
use crate::schema::FieldPropsV;
use crate::schema::SchemaError;
use crate::schema::TypeProps;
use crate::schema::TypePropsV;
use crate::schema::AttrKey;
use crate::schema::spec_is_single;
use crate::schema::wf;
use crate::schema::wf_field;
use crate::text::fmt_expand;
use crate::text::replace_text;
use crate::text::spec_fmt_expand;
use crate::text::spec_replace;
use crate::value::ReprTarget;
use crate::value::Value;
use crate::value::ValueV;
use crate::value::spec_display;
use crate::value::spec_value_text;

verus! {

use vstd::string::*;

/// One line inside a record block: a field line or a format override line.
pub enum RecLine {
    FieldLine { tag: Seq<char>, val: Seq<char> },
    RawLine { text: Seq<char> },
}

/// One emitted item: a record block, or a standalone format override line.
pub enum RecItem {
    Block { rtype: Seq<char>, rname: Seq<char>, lines: Seq<RecLine> },
    Raw { text: Seq<char> },
}

/// The representation cast a field declares, if any.
pub open spec fn repr_of(f: FieldPropsV) -> Option<ReprTarget> {
    match f.repr {
        Some((_, t)) => Some(t),
        None => None,
    }
}

/// The text a field's value contributes, after its representation cast.
pub open spec fn spec_field_text(f: FieldPropsV, v: ValueV) -> Seq<char> {
    spec_value_text(repr_of(f), v)
}

/// The views of a value list.
pub open spec fn vals_view(vs: Seq<Value>) -> Seq<ValueV> {
    vs.map_values(|v: Value| v@)
}

/// The line a field contributes inside the single global record block:
/// none for a substitution field, its expanded format override, or its
/// `field(<TAG>, "<value>")` line.
pub open spec fn spec_line_of(f: FieldPropsV, v: ValueV) -> Option<RecLine> {
    if f.subst is Some {
        None
    } else if f.format is Some {
        Some(RecLine::RawLine { text: spec_fmt_expand(f.format.unwrap().1, spec_field_text(f, v)) })
    } else if f.field_name is Some {
        Some(RecLine::FieldLine { tag: f.field_name.unwrap().1, val: spec_field_text(f, v) })
    } else {
        None
    }
}

/// The lines of the single global record block, in declaration order.
pub open spec fn spec_lines_of(fields: Seq<FieldPropsV>, values: Seq<ValueV>) -> Seq<RecLine>
    decreases fields.len(),
{
    if fields.len() == 0 || fields.len() != values.len() {
        Seq::empty()
    } else {
        spec_lines_of(fields.drop_last(), values.drop_last()) + (match spec_line_of(
            fields.last(),
            values.last(),
        ) {
            Some(l) => seq![l],
            None => Seq::empty(),
        })
    }
}

/// The item a field contributes in Multiple-Records mode: none for a
/// substitution field, a standalone expanded format override line, or a
/// one-field record block under the field's own record name/type pair.
pub open spec fn spec_item_of(f: FieldPropsV, v: ValueV) -> Option<RecItem> {
    if f.subst is Some {
        None
    } else if f.format is Some {
        Some(RecItem::Raw { text: spec_fmt_expand(f.format.unwrap().1, spec_field_text(f, v)) })
    } else if f.field_name is Some && f.rec_name is Some && f.rec_type is Some {
        Some(
            RecItem::Block {
                rtype: f.rec_type.unwrap().1,
                rname: f.rec_name.unwrap().1,
                lines: seq![
                    RecLine::FieldLine { tag: f.field_name.unwrap().1, val: spec_field_text(f, v) },
                ],
            },
        )
    } else {
        None
    }
}

/// The items of Multiple-Records mode, in declaration order.
pub open spec fn spec_items_of(fields: Seq<FieldPropsV>, values: Seq<ValueV>) -> Seq<RecItem>
    decreases fields.len(),
{
    if fields.len() == 0 || fields.len() != values.len() {
        Seq::empty()
    } else {
        spec_items_of(fields.drop_last(), values.drop_last()) + (match spec_item_of(
            fields.last(),
            values.last(),
        ) {
            Some(it) => seq![it],
            None => Seq::empty(),
        })
    }
}

/// The emitted items of a projection: one block holding every field line
/// under a global pair, else each field's own item.
pub open spec fn spec_items(tp: TypePropsV, values: Seq<ValueV>) -> Seq<RecItem> {
    if spec_is_single(tp) {
        seq![
            RecItem::Block {
                rtype: tp.type_rec_type.unwrap().1,
                rname: tp.type_rec_name.unwrap().1,
                lines: spec_lines_of(tp.fields, values),
            },
        ]
    } else {
        spec_items_of(tp.fields, values)
    }
}

/// The text of one line.
pub open spec fn spec_render_line(l: RecLine) -> Seq<char> {
    match l {
        RecLine::FieldLine { tag, val } => "  field("@ + tag + ", \""@ + val + "\")\n"@,
        RecLine::RawLine { text } => text + "\n"@,
    }
}

/// The text of a line sequence.
pub open spec fn spec_render_lines(ls: Seq<RecLine>) -> Seq<char>
    decreases ls.len(),
{
    if ls.len() == 0 {
        Seq::empty()
    } else {
        spec_render_lines(ls.drop_last()) + spec_render_line(ls.last())
    }
}

/// The text of one emitted item.
pub open spec fn spec_render_item(it: RecItem) -> Seq<char> {
    match it {
        RecItem::Block { rtype, rname, lines } => "record("@ + rtype + ", \""@ + rname + "\") {\n"@
            + spec_render_lines(lines) + "}\n"@,
        RecItem::Raw { text } => text + "\n"@,
    }
}

/// The text of an item sequence.
pub open spec fn spec_render_items(its: Seq<RecItem>) -> Seq<char>
    decreases its.len(),
{
    if its.len() == 0 {
        Seq::empty()
    } else {
        spec_render_items(its.drop_last()) + spec_render_item(its.last())
    }
}

/// The substitution passes queued by the fields from position `i` on: each
/// substitution field contributes its placeholder and its value's display
/// text, in declaration order.
pub open spec fn spec_subst_pairs(fields: Seq<FieldPropsV>, values: Seq<ValueV>, i: int) -> Seq<
    (Seq<char>, Seq<char>),
>
    decreases fields.len() - i,
{
    if i < 0 || i >= fields.len() || fields.len() != values.len() {
        Seq::empty()
    } else {
        match fields[i].subst {
            Some((_, p)) => seq![(p, spec_display(values[i]))] + spec_subst_pairs(
                fields,
                values,
                i + 1,
            ),
            None => spec_subst_pairs(fields, values, i + 1),
        }
    }
}

/// The queued substitution passes applied over the whole text, first pass
/// first.
pub open spec fn spec_apply_substs(t: Seq<char>, ps: Seq<(Seq<char>, Seq<char>)>) -> Seq<char>
    decreases ps.len(),
{
    if ps.len() == 0 {
        t
    } else {
        spec_apply_substs(spec_replace(t, ps[0].0, ps[0].1), ps.skip(1))
    }
}

/// The projected record text of a type descriptor and an aligned value
/// list: the rendered items, rewritten by the queued substitution passes.
pub open spec fn spec_project(tp: TypePropsV, values: Seq<ValueV>) -> Seq<char> {
    spec_apply_substs(
        spec_render_items(spec_items(tp, values)),
        spec_subst_pairs(tp.fields, values, 0),
    )
}

impl FieldProps {
    /// The representation cast this field declares, if any.
    pub fn repr_target(&self) -> (r: Option<ReprTarget>)
        ensures
            r == repr_of(self@),
    {
        match &self.repr {
            Some((_, t)) => Some(*t),
            None => None,
        }
    }
}

impl TypeProps {
    /// Applies the queued substitution passes of this type to `out`.
    fn apply_substs(&self, out: String, values: &Vec<Value>) -> (r: String)
        requires
            values@.len() == self@.fields.len(),
        ensures
            r@ == spec_apply_substs(
                out@,
                spec_subst_pairs(self@.fields, vals_view(values@), 0),
            ),
    {
        let ghost fields = self@.fields;
        let ghost vals = vals_view(values@);
        let mut res = out;
        let ghost base = res@;
        let mut j: usize = 0;
        while j < self.fields.len()
            invariant
                fields == self@.fields,
                vals == vals_view(values@),
                values@.len() == self@.fields.len(),
                self@.fields.len() == self.fields@.len(),
                vals.len() == fields.len(),
                values@.len() == values.len(),
                0 <= j <= fields.len(),
                spec_apply_substs(base, spec_subst_pairs(fields, vals, 0)) == spec_apply_substs(
                    res@,
                    spec_subst_pairs(fields, vals, j as int),
                ),
            decreases self.fields@.len() - j,
        {
            proof {
                assert(fields[j as int] == self.fields@[j as int]@);
                assert(vals[j as int] == values@[j as int]@);
            }
            let f = &self.fields[j];
            if let Some((_, ph)) = &f.subst {
                let dis = values[j].display_text();
                let ghost pre = res@;
                res = replace_text(res.as_str(), ph.as_str(), dis.as_str());
                proof {
                    let pair = (ph@, spec_display(vals[j as int]));
                    assert(spec_subst_pairs(fields, vals, j as int) == seq![pair]
                        + spec_subst_pairs(fields, vals, j as int + 1));
                    assert((seq![pair] + spec_subst_pairs(fields, vals, j as int + 1)).skip(1)
                        =~= spec_subst_pairs(fields, vals, j as int + 1));
                    assert((seq![pair] + spec_subst_pairs(fields, vals, j as int + 1))[0] == pair);
                }
            }
            j += 1;
        }
        proof {
            assert(spec_subst_pairs(fields, vals, fields.len() as int)
                =~= Seq::<(Seq<char>, Seq<char>)>::empty());
        }
        res
    }

    fn generate_single_record(&self, rtype: &String, rname: &String, values: &Vec<Value>) -> (r:
        Result<String, SchemaError>)
        requires
            wf(self@),
            spec_is_single(self@),
            self@.type_rec_type.unwrap().1 == rtype@,
            self@.type_rec_name.unwrap().1 == rname@,
            values@.len() == self@.fields.len(),
        ensures
            r matches Ok(s) && s@ == spec_project(self@, vals_view(values@)),
    {
        let ghost fields = self@.fields;
        let ghost vals = vals_view(values@);
        let mut out = String::new();
        out.append("record(");
        out.append(rtype.as_str());
        out.append(", \"");
        out.append(rname.as_str());
        out.append("\") {\n");
        let ghost header = "record("@ + rtype@ + ", \""@ + rname@ + "\") {\n"@;
        proof {
            assert(out@ =~= header);
            assert(fields.take(0) =~= Seq::<FieldPropsV>::empty());
            assert(vals.take(0) =~= Seq::<ValueV>::empty());
            assert(out@ + spec_render_lines(spec_lines_of(fields.take(0), vals.take(0))) =~= out@);
        }
        let mut i: usize = 0;
        while i < self.fields.len()
            invariant
                wf(self@),
                fields == self@.fields,
                vals == vals_view(values@),
                values@.len() == self@.fields.len(),
                self@.fields.len() == self.fields@.len(),
                vals.len() == fields.len(),
                values@.len() == values.len(),
                0 <= i <= fields.len(),
                out@ == header + spec_render_lines(
                    spec_lines_of(fields.take(i as int), vals.take(i as int)),
                ),
            decreases self.fields@.len() - i,
        {
            proof {
                assert(fields[i as int] == self.fields@[i as int]@);
                assert(vals[i as int] == values@[i as int]@);
                assert(wf_field(self@, fields[i as int]));
            }
            let f = &self.fields[i];
            let ghost fv = fields[i as int];
            let ghost vv = vals[i as int];
            let ghost pre = out@;
            if f.subst.is_some() {
            } else if let Some((_, fmtv)) = &f.format {
                let reprt = f.repr_target();
                let valtext = values[i].render(reprt);
                let line = fmt_expand(fmtv.as_str(), valtext.as_str());
                out.append(line.as_str());
                out.append("\n");
                proof {
                    assert(out@ =~= pre + spec_render_line(spec_line_of(fv, vv).unwrap()));
                }
            } else if let Some((_, tag)) = &f.field_name {
                let reprt = f.repr_target();
                let valtext = values[i].render(reprt);
                out.append("  field(");
                out.append(tag.as_str());
                out.append(", \"");
                out.append(valtext.as_str());
                out.append("\")\n");
                proof {
                    assert(out@ =~= pre + spec_render_line(spec_line_of(fv, vv).unwrap()));
                }
            } else {
                proof {
                    assert(false);
                }
            }
            proof {
                let pfx = fields.take(i as int + 1);
                let vfx = vals.take(i as int + 1);
                assert(pfx.drop_last() =~= fields.take(i as int));
                assert(vfx.drop_last() =~= vals.take(i as int));
                assert(pfx.last() == fv);
                assert(vfx.last() == vv);
                let prev = spec_lines_of(fields.take(i as int), vals.take(i as int));
                match spec_line_of(fv, vv) {
                    Some(l) => {
                        assert(spec_lines_of(pfx, vfx) =~= prev + seq![l]);
                        assert((prev + seq![l]).drop_last() =~= prev);
                        assert(spec_render_lines(prev + seq![l]) == spec_render_lines(prev)
                            + spec_render_line(l));
                        assert(out@ =~= header + spec_render_lines(spec_lines_of(pfx, vfx)));
                    },
                    None => {
                        assert(spec_lines_of(pfx, vfx) =~= prev);
                        assert(out@ =~= header + spec_render_lines(spec_lines_of(pfx, vfx)));
                    },
                }
            }
            i += 1;
        }
        out.append("}\n");
        proof {
            assert(fields.take(fields.len() as int) =~= fields);
            assert(vals.take(vals.len() as int) =~= vals);
            let lines = spec_lines_of(fields, vals);
            assert(out@ =~= header + spec_render_lines(lines) + "}\n"@);
            let its = spec_items(self@, vals);
            let b = its.last();
            assert(b == (RecItem::Block { rtype: rtype@, rname: rname@, lines }));
            assert(its.drop_last() =~= Seq::<RecItem>::empty());
            assert(spec_render_items(its) == spec_render_items(Seq::<RecItem>::empty())
                + spec_render_item(b));
            assert(spec_render_item(b) == "record("@ + rtype@ + ", \""@ + rname@ + "\") {\n"@
                + spec_render_lines(lines) + "}\n"@);
            assert(out@ =~= spec_render_items(its));
        }
        let res = self.apply_substs(out, values);
        Ok(res)
    }

    fn generate_multiple_records(&self, values: &Vec<Value>) -> (r: Result<String, SchemaError>)
        requires
            wf(self@),
            !spec_is_single(self@),
            values@.len() == self@.fields.len(),
        ensures
            r matches Ok(s) && s@ == spec_project(self@, vals_view(values@)),
    {
        let ghost fields = self@.fields;
        let ghost vals = vals_view(values@);
        let mut out = String::new();
        proof {
            assert(fields.take(0) =~= Seq::<FieldPropsV>::empty());
            assert(vals.take(0) =~= Seq::<ValueV>::empty());
            assert(out@ =~= spec_render_items(spec_items_of(fields.take(0), vals.take(0))));
        }
        let mut i: usize = 0;
        while i < self.fields.len()
            invariant
                wf(self@),
                !spec_is_single(self@),
                fields == self@.fields,
                vals == vals_view(values@),
                values@.len() == self@.fields.len(),
                self@.fields.len() == self.fields@.len(),
                vals.len() == fields.len(),
                values@.len() == values.len(),
                0 <= i <= fields.len(),
                out@ == spec_render_items(
                    spec_items_of(fields.take(i as int), vals.take(i as int)),
                ),
            decreases self.fields@.len() - i,
        {
            proof {
                assert(fields[i as int] == self.fields@[i as int]@);
                assert(vals[i as int] == values@[i as int]@);
                assert(wf_field(self@, fields[i as int]));
            }
            let f = &self.fields[i];
            let ghost fv = fields[i as int];
            let ghost vv = vals[i as int];
            let ghost pre = out@;
            if f.subst.is_some() {
            } else if let Some((_, fmtv)) = &f.format {
                let reprt = f.repr_target();
                let valtext = values[i].render(reprt);
                let line = fmt_expand(fmtv.as_str(), valtext.as_str());
                out.append(line.as_str());
                out.append("\n");
                proof {
                    assert(out@ =~= pre + spec_render_item(spec_item_of(fv, vv).unwrap()));
                }
            } else if let Some((fnloc, tag)) = &f.field_name {
                match (&f.rec_name, &f.rec_type) {
                    (Some((_, rname)), Some((_, rtype))) => {
                        let reprt = f.repr_target();
                        let valtext = values[i].render(reprt);
                        out.append("record(");
                        out.append(rtype.as_str());
                        out.append(", \"");
                        out.append(rname.as_str());
                        out.append("\") {\n");
                        out.append("  field(");
                        out.append(tag.as_str());
                        out.append(", \"");
                        out.append(valtext.as_str());
                        out.append("\")\n");
                        out.append("}\n");
                        proof {
                            let it = spec_item_of(fv, vv).unwrap();
                            let fl = RecLine::FieldLine {
                                tag: tag@,
                                val: spec_field_text(fv, vv),
                            };
                            let lineln = "  field("@ + tag@ + ", \""@ + spec_field_text(fv, vv)
                                + "\")\n"@;
                            assert(it->Block_lines =~= seq![fl]);
                            assert(it->Block_lines.drop_last() =~= Seq::<RecLine>::empty());
                            assert(spec_render_lines(it->Block_lines) == spec_render_lines(
                                Seq::<RecLine>::empty(),
                            ) + spec_render_line(fl));
                            assert(spec_render_lines(it->Block_lines) =~= lineln);
                            assert(spec_render_item(it) == "record("@ + rtype@ + ", \""@ + rname@
                                + "\") {\n"@ + spec_render_lines(it->Block_lines) + "}\n"@);
                            assert(out@ =~= pre + ("record("@ + rtype@ + ", \""@ + rname@
                                + "\") {\n"@ + lineln + "}\n"@));
                            assert(out@ =~= pre + spec_render_item(it));
                        }
                    },
                    _ => {
                        // A field tag without its own record name/type pair
                        // cannot reach a validated descriptor; kept as a
                        // guard for the projection algorithm itself.
                        proof {
                            assert(false);
                        }
                        return Err(
                            SchemaError::MissingLocalPair {
                                field: i,
                                field_attr: *fnloc,
                                rec_name: None,
                                rec_type: None,
                            },
                        );
                    },
                }
            } else {
                proof {
                    assert(false);
                }
            }
            proof {
                let pfx = fields.take(i as int + 1);
                let vfx = vals.take(i as int + 1);
                assert(pfx.drop_last() =~= fields.take(i as int));
                assert(vfx.drop_last() =~= vals.take(i as int));
                assert(pfx.last() == fv);
                assert(vfx.last() == vv);
                let prev = spec_items_of(fields.take(i as int), vals.take(i as int));
                match spec_item_of(fv, vv) {
                    Some(it) => {
                        assert(spec_items_of(pfx, vfx) =~= prev + seq![it]);
                        assert((prev + seq![it]).drop_last() =~= prev);
                        assert(spec_render_items(prev + seq![it]) == spec_render_items(prev)
                            + spec_render_item(it));
                        assert(out@ =~= spec_render_items(spec_items_of(pfx, vfx)));
                    },
                    None => {
                        assert(spec_items_of(pfx, vfx) =~= prev);
                        assert(out@ =~= spec_render_items(spec_items_of(pfx, vfx)));
                    },
                }
            }
            i += 1;
        }
        proof {
            assert(fields.take(fields.len() as int) =~= fields);
            assert(vals.take(vals.len() as int) =~= vals);
        }
        let res = self.apply_substs(out, values);
        Ok(res)
    }

    /// Projects an aligned value list through this descriptor into record
    /// text. On a well-formed descriptor this never fails: all validity
    /// was checked at registration.
    pub fn generate(&self, values: &Vec<Value>) -> (r: Result<String, SchemaError>)
        requires
            wf(self@),
            values@.len() == self@.fields.len(),
        ensures
            r matches Ok(s) && s@ == spec_project(self@, vals_view(values@)),
    {
        match (&self.type_rec_name, &self.type_rec_type) {
            (Some((_, rname)), Some((_, rtype))) => self.generate_single_record(
                rtype,
                rname,
                values,
            ),
            (None, None) => self.generate_multiple_records(values),
            (Some((loc, _)), None) => {
                proof {
                    assert(false);
                }
                Err(SchemaError::IncompleteGlobalPair { present: AttrKey::RecName, loc: *loc })
            },
            (None, Some((loc, _))) => {
                proof {
                    assert(false);
                }
                Err(SchemaError::IncompleteGlobalPair { present: AttrKey::RecType, loc: *loc })
            },
        }
    }
}

} // verus!
