//! The schema model: declarative attribute metadata per type and per field,
//! collected from key/value pairs and validated once, at registration.
//!
//! A registered type descriptor fixes, for every field, exactly one
//! projection rule (a literal format override, an output field tag backed by
//! an in-scope record name/type pair, or a pure substitution role) together
//! with the field's element type, arity and optionality for row
//! deserialization. A schema that breaks any occurrence or consistency
//! invariant is rejected whole, with the locations of the conflicting
//! declarations.

use vstd::prelude::*;
use crate::text::str_eq;
use crate::text::valid_fmt;
use crate::text::fmt_holes;
use crate::value::ReprTarget;

verus! {

use vstd::string::*;

/// The scope an attribute was declared in: on the type itself, or on the
/// field with the given position.
#[derive(Debug, Clone, Copy, PartialEq, Eq, Structural)]
pub enum AttrScope {
    Type,
    Field(usize),
}

/// The location of one attribute declaration: its scope and its position
/// within that scope's declaration list.
#[derive(Debug, Clone, Copy, PartialEq, Eq, Structural)]
pub struct AttrLoc {
    pub scope: AttrScope,
    pub index: usize,
}

/// The attribute kinds of the declaration surface.
#[derive(Debug, Clone, Copy, PartialEq, Eq, Structural)]
pub enum AttrKey {
    RecName,
    RecType,
    Field,
    Fmt,
    Repr,
    Subst,
}

/// A configuration error found at schema registration. Fatal to the whole
/// schema; the locations cited are those of the conflicting declarations.
#[derive(Debug, Clone, Copy, PartialEq, Eq, Structural)]
pub enum SchemaError {
    /// A declaration uses a key that is not part of the attribute surface.
    UnknownAttr { loc: AttrLoc },
    /// A `repr` declaration names a representation that is not an unsigned
    /// integer type.
    UnknownRepr { loc: AttrLoc },
    /// The same attribute kind occurs twice in one scope.
    DuplicateAttr { key: AttrKey, first: AttrLoc, second: AttrLoc },
    /// A field declares `rec_name` or `rec_type` although a global one
    /// exists.
    GlobalRedefined { key: AttrKey, global: AttrLoc, local: AttrLoc },
    /// Only one of the global `rec_name`/`rec_type` pair is declared.
    IncompleteGlobalPair { present: AttrKey, loc: AttrLoc },
    /// A field resolves to no projection rule at all.
    NoRule { field: usize },
    /// A field declares more than one projection rule.
    ConflictingRules { field: usize, first: AttrLoc, second: AttrLoc },
    /// A field tag lacks its own record name/type pair although no global
    /// pair exists.
    MissingLocalPair {
        field: usize,
        field_attr: AttrLoc,
        rec_name: Option<AttrLoc>,
        rec_type: Option<AttrLoc>,
    },
    /// A format override line has a stray brace or not exactly one `{}`
    /// value placeholder.
    InvalidFormat { loc: AttrLoc },
    /// A substitution placeholder is empty.
    EmptySubst { loc: AttrLoc },
    /// No field of a type without a global pair emits any record or line.
    NoRecords,
    /// The declared field arities sum past the machine's addressable size.
    ArityOverflow,
}

/// The duplicate-occurrence error, citing the first and second declaration.
pub fn occurrence_error(key: AttrKey, first: AttrLoc, second: AttrLoc) -> (e: SchemaError)
    ensures
        e == (SchemaError::DuplicateAttr { key, first, second }),
{
    SchemaError::DuplicateAttr { key, first, second }
}

/// The local-overrides-global error, citing the global definition and the
/// offending local one.
pub fn rec_def_error(key: AttrKey, global: AttrLoc, local: AttrLoc) -> (e: SchemaError)
    ensures
        e == (SchemaError::GlobalRedefined { key, global, local }),
{
    SchemaError::GlobalRedefined { key, global, local }
}

/// A type-level attribute: only the global record name and record type may
/// stand on a type.
#[derive(Debug, Clone, PartialEq)]
pub enum StructMeta {
    RecName { loc: AttrLoc, val: String },
    RecType { loc: AttrLoc, val: String },
}

/// The mathematical shape of a `StructMeta`.
pub enum StructMetaV {
    RecName { loc: AttrLoc, val: Seq<char> },
    RecType { loc: AttrLoc, val: Seq<char> },
}

impl View for StructMeta {
    type V = StructMetaV;

    open spec fn view(&self) -> StructMetaV {
        match self {
            StructMeta::RecName { loc, val } => StructMetaV::RecName { loc: *loc, val: val@ },
            StructMeta::RecType { loc, val } => StructMetaV::RecType { loc: *loc, val: val@ },
        }
    }
}

/// A field-level attribute.
#[derive(Debug, Clone, PartialEq)]
pub enum FieldMeta {
    RecName { loc: AttrLoc, val: String },
    RecType { loc: AttrLoc, val: String },
    RecField { loc: AttrLoc, val: String },
    Fmt { loc: AttrLoc, val: String },
    Repr { loc: AttrLoc, target: ReprTarget },
    Subst { loc: AttrLoc, val: String },
}

/// The mathematical shape of a `FieldMeta`.
pub enum FieldMetaV {
    RecName { loc: AttrLoc, val: Seq<char> },
    RecType { loc: AttrLoc, val: Seq<char> },
    RecField { loc: AttrLoc, val: Seq<char> },
    Fmt { loc: AttrLoc, val: Seq<char> },
    Repr { loc: AttrLoc, target: ReprTarget },
    Subst { loc: AttrLoc, val: Seq<char> },
}

impl View for FieldMeta {
    type V = FieldMetaV;

    open spec fn view(&self) -> FieldMetaV {
        match self {
            FieldMeta::RecName { loc, val } => FieldMetaV::RecName { loc: *loc, val: val@ },
            FieldMeta::RecType { loc, val } => FieldMetaV::RecType { loc: *loc, val: val@ },
            FieldMeta::RecField { loc, val } => FieldMetaV::RecField { loc: *loc, val: val@ },
            FieldMeta::Fmt { loc, val } => FieldMetaV::Fmt { loc: *loc, val: val@ },
            FieldMeta::Repr { loc, target } => FieldMetaV::Repr { loc: *loc, target: *target },
            FieldMeta::Subst { loc, val } => FieldMetaV::Subst { loc: *loc, val: val@ },
        }
    }
}

/// Recognition of a type-level key/value pair.
pub open spec fn spec_struct_meta(key: Seq<char>, val: Seq<char>, loc: AttrLoc) -> Result<
    StructMetaV,
    SchemaError,
> {
    if key == "rec_name"@ {
        Ok(StructMetaV::RecName { loc, val })
    } else if key == "rec_type"@ {
        Ok(StructMetaV::RecType { loc, val })
    } else {
        Err(SchemaError::UnknownAttr { loc })
    }
}

/// Recognition of a `repr` representation target.
pub open spec fn spec_repr_target(s: Seq<char>) -> Option<ReprTarget> {
    if s == "u8"@ {
        Some(ReprTarget::U8)
    } else if s == "u16"@ {
        Some(ReprTarget::U16)
    } else if s == "u32"@ {
        Some(ReprTarget::U32)
    } else if s == "u64"@ {
        Some(ReprTarget::U64)
    } else if s == "usize"@ {
        Some(ReprTarget::Usize)
    } else {
        None
    }
}

/// Recognition of a field-level key/value pair.
pub open spec fn spec_field_meta(key: Seq<char>, val: Seq<char>, loc: AttrLoc) -> Result<
    FieldMetaV,
    SchemaError,
> {
    if key == "rec_name"@ {
        Ok(FieldMetaV::RecName { loc, val })
    } else if key == "rec_type"@ {
        Ok(FieldMetaV::RecType { loc, val })
    } else if key == "field"@ {
        Ok(FieldMetaV::RecField { loc, val })
    } else if key == "fmt"@ {
        Ok(FieldMetaV::Fmt { loc, val })
    } else if key == "subst"@ {
        Ok(FieldMetaV::Subst { loc, val })
    } else if key == "repr"@ {
        match spec_repr_target(val) {
            Some(t) => Ok(FieldMetaV::Repr { loc, target: t }),
            None => Err(SchemaError::UnknownRepr { loc }),
        }
    } else {
        Err(SchemaError::UnknownAttr { loc })
    }
}

impl StructMeta {
    /// Recognizes one type-level key/value pair.
    pub fn parse(key: &str, value: &str, loc: AttrLoc) -> (r: Result<StructMeta, SchemaError>)
        ensures
            match r {
                Ok(m) => spec_struct_meta(key@, value@, loc) == Ok::<_, SchemaError>(m@),
                Err(e) => spec_struct_meta(key@, value@, loc) == Err::<StructMetaV, _>(e),
            },
    {
        if str_eq(key, "rec_name") {
            Ok(StructMeta::RecName { loc, val: value.to_owned() })
        } else if str_eq(key, "rec_type") {
            Ok(StructMeta::RecType { loc, val: value.to_owned() })
        } else {
            Err(SchemaError::UnknownAttr { loc })
        }
    }
}

impl FieldMeta {
    /// Recognizes one field-level key/value pair.
    pub fn parse(key: &str, value: &str, loc: AttrLoc) -> (r: Result<FieldMeta, SchemaError>)
        ensures
            match r {
                Ok(m) => spec_field_meta(key@, value@, loc) == Ok::<_, SchemaError>(m@),
                Err(e) => spec_field_meta(key@, value@, loc) == Err::<FieldMetaV, _>(e),
            },
    {
        if str_eq(key, "rec_name") {
            Ok(FieldMeta::RecName { loc, val: value.to_owned() })
        } else if str_eq(key, "rec_type") {
            Ok(FieldMeta::RecType { loc, val: value.to_owned() })
        } else if str_eq(key, "field") {
            Ok(FieldMeta::RecField { loc, val: value.to_owned() })
        } else if str_eq(key, "fmt") {
            Ok(FieldMeta::Fmt { loc, val: value.to_owned() })
        } else if str_eq(key, "subst") {
            Ok(FieldMeta::Subst { loc, val: value.to_owned() })
        } else if str_eq(key, "repr") {
            if str_eq(value, "u8") {
                Ok(FieldMeta::Repr { loc, target: ReprTarget::U8 })
            } else if str_eq(value, "u16") {
                Ok(FieldMeta::Repr { loc, target: ReprTarget::U16 })
            } else if str_eq(value, "u32") {
                Ok(FieldMeta::Repr { loc, target: ReprTarget::U32 })
            } else if str_eq(value, "u64") {
                Ok(FieldMeta::Repr { loc, target: ReprTarget::U64 })
            } else if str_eq(value, "usize") {
                Ok(FieldMeta::Repr { loc, target: ReprTarget::Usize })
            } else {
                Err(SchemaError::UnknownRepr { loc })
            }
        } else {
            Err(SchemaError::UnknownAttr { loc })
        }
    }
}

/// The element type a field's cells convert to.
#[derive(Debug, Clone, PartialEq)]
pub enum ElemType {
    /// A numeric cell, kept as its decimal text.
    Numeric,
    /// A textual cell.
    Textual,
    /// A cell whose text must match one of the declared variant names,
    /// case-sensitively; the match's position is the variant's ordinal.
    Enumerated(Vec<String>),
}

/// The mathematical shape of an `ElemType`.
pub enum ElemTypeV {
    Numeric,
    Textual,
    Enumerated(Seq<Seq<char>>),
}

impl View for ElemType {
    type V = ElemTypeV;

    open spec fn view(&self) -> ElemTypeV {
        match self {
            ElemType::Numeric => ElemTypeV::Numeric,
            ElemType::Textual => ElemTypeV::Textual,
            ElemType::Enumerated(names) => ElemTypeV::Enumerated(
                names@.map_values(|s: String| s@),
            ),
        }
    }
}

impl ElemType {
    /// A copy of this element type, equal under the view.
    pub fn dup(&self) -> (r: ElemType)
        ensures
            r@ == self@,
    {
        match self {
            ElemType::Numeric => ElemType::Numeric,
            ElemType::Textual => ElemType::Textual,
            ElemType::Enumerated(names) => {
                let mut out: Vec<String> = Vec::new();
                let mut i: usize = 0;
                while i < names.len()
                    invariant
                        0 <= i <= names.len(),
                        out@.len() == i,
                        forall|j: int| 0 <= j < i ==> out@[j]@ == names@[j]@,
                    decreases names.len() - i,
                {
                    out.push(names[i].clone());
                    i += 1;
                }
                proof {
                    assert(out@.map_values(|s: String| s@) =~= names@.map_values(|s: String| s@));
                }
                ElemType::Enumerated(out)
            },
        }
    }
}

/// The declarative description of one field, as handed to registration.
#[derive(Debug, Clone, PartialEq)]
pub struct FieldDecl {
    pub ident: String,
    pub attrs: Vec<(String, String)>,
    pub elem: ElemType,
    pub arity: usize,
    pub optional: bool,
}

/// The declarative description of one type, as handed to registration.
#[derive(Debug, Clone, PartialEq)]
pub struct TypeDecl {
    pub ident: String,
    pub attrs: Vec<(String, String)>,
    pub fields: Vec<FieldDecl>,
}

/// The mathematical shape of a `FieldDecl`.
pub struct FieldDeclV {
    pub ident: Seq<char>,
    pub attrs: Seq<(Seq<char>, Seq<char>)>,
    pub elem: ElemTypeV,
    pub arity: nat,
    pub optional: bool,
}

/// The mathematical shape of a `TypeDecl`.
pub struct TypeDeclV {
    pub ident: Seq<char>,
    pub attrs: Seq<(Seq<char>, Seq<char>)>,
    pub fields: Seq<FieldDeclV>,
}

impl View for FieldDecl {
    type V = FieldDeclV;

    open spec fn view(&self) -> FieldDeclV {
        FieldDeclV {
            ident: self.ident@,
            attrs: self.attrs@.map_values(|kv: (String, String)| (kv.0@, kv.1@)),
            elem: self.elem@,
            arity: self.arity as nat,
            optional: self.optional,
        }
    }
}

impl View for TypeDecl {
    type V = TypeDeclV;

    open spec fn view(&self) -> TypeDeclV {
        TypeDeclV {
            ident: self.ident@,
            attrs: self.attrs@.map_values(|kv: (String, String)| (kv.0@, kv.1@)),
            fields: self.fields@.map_values(|f: FieldDecl| f@),
        }
    }
}

/// One field of a registered type: its resolved attribute set together with
/// its element type, arity and optionality.
#[derive(Debug, Clone, PartialEq)]
pub struct FieldProps {
    pub ident: String,
    pub rec_name: Option<(AttrLoc, String)>,
    pub rec_type: Option<(AttrLoc, String)>,
    pub field_name: Option<(AttrLoc, String)>,
    pub format: Option<(AttrLoc, String)>,
    pub repr: Option<(AttrLoc, ReprTarget)>,
    pub subst: Option<(AttrLoc, String)>,
    pub elem: ElemType,
    pub arity: usize,
    pub optional: bool,
}

/// The mathematical shape of a `FieldProps`.
#[verifier::ext_equal]
pub struct FieldPropsV {
    pub ident: Seq<char>,
    pub rec_name: Option<(AttrLoc, Seq<char>)>,
    pub rec_type: Option<(AttrLoc, Seq<char>)>,
    pub field_name: Option<(AttrLoc, Seq<char>)>,
    pub format: Option<(AttrLoc, Seq<char>)>,
    pub repr: Option<(AttrLoc, ReprTarget)>,
    pub subst: Option<(AttrLoc, Seq<char>)>,
    pub elem: ElemTypeV,
    pub arity: nat,
    pub optional: bool,
}

/// The view of an optional located attribute value.
pub open spec fn opt_attr_view(o: Option<(AttrLoc, String)>) -> Option<(AttrLoc, Seq<char>)> {
    match o {
        Some((l, s)) => Some((l, s@)),
        None => None,
    }
}

impl View for FieldProps {
    type V = FieldPropsV;

    open spec fn view(&self) -> FieldPropsV {
        FieldPropsV {
            ident: self.ident@,
            rec_name: opt_attr_view(self.rec_name),
            rec_type: opt_attr_view(self.rec_type),
            field_name: opt_attr_view(self.field_name),
            format: opt_attr_view(self.format),
            repr: self.repr,
            subst: opt_attr_view(self.subst),
            elem: self.elem@,
            arity: self.arity as nat,
            optional: self.optional,
        }
    }
}

impl FieldProps {
    /// A field with no attributes yet: a scalar, required, textual field.
    pub fn new(ident: String) -> (r: FieldProps)
        ensures
            r@ == (FieldPropsV {
                ident: ident@,
                rec_name: None,
                rec_type: None,
                field_name: None,
                format: None,
                repr: None,
                subst: None,
                elem: ElemTypeV::Textual,
                arity: 1nat,
                optional: false,
            }),
    {
        FieldProps {
            ident,
            rec_name: None,
            rec_type: None,
            field_name: None,
            format: None,
            repr: None,
            subst: None,
            elem: ElemType::Textual,
            arity: 1,
            optional: false,
        }
    }
}

/// A registered type: the optional global record name/type pair and the
/// ordered field descriptors. Field order is significant: it fixes both the
/// output block order and the row consumption order.
#[derive(Debug, Clone, PartialEq)]
pub struct TypeProps {
    pub ident: String,
    pub type_rec_name: Option<(AttrLoc, String)>,
    pub type_rec_type: Option<(AttrLoc, String)>,
    pub fields: Vec<FieldProps>,
}

/// The mathematical shape of a `TypeProps`.
#[verifier::ext_equal]
pub struct TypePropsV {
    pub ident: Seq<char>,
    pub type_rec_name: Option<(AttrLoc, Seq<char>)>,
    pub type_rec_type: Option<(AttrLoc, Seq<char>)>,
    pub fields: Seq<FieldPropsV>,
}

impl View for TypeProps {
    type V = TypePropsV;

    open spec fn view(&self) -> TypePropsV {
        TypePropsV {
            ident: self.ident@,
            type_rec_name: opt_attr_view(self.type_rec_name),
            type_rec_type: opt_attr_view(self.type_rec_type),
            fields: self.fields@.map_values(|f: FieldProps| f@),
        }
    }
}

/// Applying one type-level attribute, with its occurrence check.
pub open spec fn spec_apply_struct_meta(tp: TypePropsV, m: StructMetaV) -> Result<
    TypePropsV,
    SchemaError,
> {
    match m {
        StructMetaV::RecName { loc, val } => match tp.type_rec_name {
            Some((first, _)) => Err(
                SchemaError::DuplicateAttr { key: AttrKey::RecName, first, second: loc },
            ),
            None => Ok(TypePropsV { type_rec_name: Some((loc, val)), ..tp }),
        },
        StructMetaV::RecType { loc, val } => match tp.type_rec_type {
            Some((first, _)) => Err(
                SchemaError::DuplicateAttr { key: AttrKey::RecType, first, second: loc },
            ),
            None => Ok(TypePropsV { type_rec_type: Some((loc, val)), ..tp }),
        },
    }
}

/// Applying one field-level attribute: its occurrence check, and, for a
/// local record name/type, the check against an existing global one.
pub open spec fn spec_apply_field_meta(tp: TypePropsV, f: FieldPropsV, m: FieldMetaV) -> Result<
    FieldPropsV,
    SchemaError,
> {
    match m {
        FieldMetaV::RecName { loc, val } => match f.rec_name {
            Some((first, _)) => Err(
                SchemaError::DuplicateAttr { key: AttrKey::RecName, first, second: loc },
            ),
            None => match tp.type_rec_name {
                Some((global, _)) => Err(
                    SchemaError::GlobalRedefined { key: AttrKey::RecName, global, local: loc },
                ),
                None => Ok(FieldPropsV { rec_name: Some((loc, val)), ..f }),
            },
        },
        FieldMetaV::RecType { loc, val } => match f.rec_type {
            Some((first, _)) => Err(
                SchemaError::DuplicateAttr { key: AttrKey::RecType, first, second: loc },
            ),
            None => match tp.type_rec_type {
                Some((global, _)) => Err(
                    SchemaError::GlobalRedefined { key: AttrKey::RecType, global, local: loc },
                ),
                None => Ok(FieldPropsV { rec_type: Some((loc, val)), ..f }),
            },
        },
        FieldMetaV::RecField { loc, val } => match f.field_name {
            Some((first, _)) => Err(
                SchemaError::DuplicateAttr { key: AttrKey::Field, first, second: loc },
            ),
            None => Ok(FieldPropsV { field_name: Some((loc, val)), ..f }),
        },
        FieldMetaV::Fmt { loc, val } => match f.format {
            Some((first, _)) => Err(
                SchemaError::DuplicateAttr { key: AttrKey::Fmt, first, second: loc },
            ),
            None => Ok(FieldPropsV { format: Some((loc, val)), ..f }),
        },
        FieldMetaV::Repr { loc, target } => match f.repr {
            Some((first, _)) => Err(
                SchemaError::DuplicateAttr { key: AttrKey::Repr, first, second: loc },
            ),
            None => Ok(FieldPropsV { repr: Some((loc, target)), ..f }),
        },
        FieldMetaV::Subst { loc, val } => match f.subst {
            Some((first, _)) => Err(
                SchemaError::DuplicateAttr { key: AttrKey::Subst, first, second: loc },
            ),
            None => Ok(FieldPropsV { subst: Some((loc, val)), ..f }),
        },
    }
}

impl TypeProps {
    /// A type with no attributes and no fields yet.
    pub fn new(ident: String) -> (r: TypeProps)
        ensures
            r@ == (TypePropsV {
                ident: ident@,
                type_rec_name: None,
                type_rec_type: None,
                fields: Seq::empty(),
            }),
    {
        let r = TypeProps { ident, type_rec_name: None, type_rec_type: None, fields: Vec::new() };
        proof {
            assert(r.fields@.map_values(|f: FieldProps| f@) =~= Seq::<FieldPropsV>::empty());
        }
        r
    }

    /// Applies one type-level attribute; on a duplicate the descriptor is
    /// unchanged and both declarations are cited.
    pub fn apply_struct_meta(&mut self, m: StructMeta) -> (r: Result<(), SchemaError>)
        ensures
            match r {
                Ok(_) => spec_apply_struct_meta(old(self)@, m@) == Ok::<_, SchemaError>(final(self)@),
                Err(e) => spec_apply_struct_meta(old(self)@, m@) == Err::<TypePropsV, _>(e)
                    && final(self)@ == old(self)@,
            },
    {
        match m {
            StructMeta::RecName { loc, val } => match &self.type_rec_name {
                Some((first, _)) => Err(occurrence_error(AttrKey::RecName, *first, loc)),
                None => {
                    self.type_rec_name = Some((loc, val));
                    proof {
                        assert(self@ =~= (TypePropsV {
                            type_rec_name: opt_attr_view(self.type_rec_name),
                            ..old(self)@
                        }));
                    }
                    Ok(())
                },
            },
            StructMeta::RecType { loc, val } => match &self.type_rec_type {
                Some((first, _)) => Err(occurrence_error(AttrKey::RecType, *first, loc)),
                None => {
                    self.type_rec_type = Some((loc, val));
                    proof {
                        assert(self@ =~= (TypePropsV {
                            type_rec_type: opt_attr_view(self.type_rec_type),
                            ..old(self)@
                        }));
                    }
                    Ok(())
                },
            },
        }
    }

    /// Applies one field-level attribute to a field under construction; on
    /// an error the field is unchanged.
    pub fn apply_field_meta(&self, f: &mut FieldProps, m: FieldMeta) -> (r: Result<
        (),
        SchemaError,
    >)
        ensures
            match r {
                Ok(_) => spec_apply_field_meta(self@, old(f)@, m@) == Ok::<_, SchemaError>(final(f)@),
                Err(e) => spec_apply_field_meta(self@, old(f)@, m@) == Err::<FieldPropsV, _>(e)
                    && final(f)@ == old(f)@,
            },
    {
        match m {
            FieldMeta::RecName { loc, val } => match &f.rec_name {
                Some((first, _)) => Err(occurrence_error(AttrKey::RecName, *first, loc)),
                None => match &self.type_rec_name {
                    Some((global, _)) => Err(rec_def_error(AttrKey::RecName, *global, loc)),
                    None => {
                        f.rec_name = Some((loc, val));
                        proof {
                            assert(f@ =~= (FieldPropsV {
                                rec_name: opt_attr_view(f.rec_name),
                                ..old(f)@
                            }));
                        }
                        Ok(())
                    },
                },
            },
            FieldMeta::RecType { loc, val } => match &f.rec_type {
                Some((first, _)) => Err(occurrence_error(AttrKey::RecType, *first, loc)),
                None => match &self.type_rec_type {
                    Some((global, _)) => Err(rec_def_error(AttrKey::RecType, *global, loc)),
                    None => {
                        f.rec_type = Some((loc, val));
                        proof {
                            assert(f@ =~= (FieldPropsV {
                                rec_type: opt_attr_view(f.rec_type),
                                ..old(f)@
                            }));
                        }
                        Ok(())
                    },
                },
            },
            FieldMeta::RecField { loc, val } => match &f.field_name {
                Some((first, _)) => Err(occurrence_error(AttrKey::Field, *first, loc)),
                None => {
                    f.field_name = Some((loc, val));
                    proof {
                        assert(f@ =~= (FieldPropsV {
                            field_name: opt_attr_view(f.field_name),
                            ..old(f)@
                        }));
                    }
                    Ok(())
                },
            },
            FieldMeta::Fmt { loc, val } => match &f.format {
                Some((first, _)) => Err(occurrence_error(AttrKey::Fmt, *first, loc)),
                None => {
                    f.format = Some((loc, val));
                    proof {
                        assert(f@ =~= (FieldPropsV { format: opt_attr_view(f.format), ..old(f)@ }));
                    }
                    Ok(())
                },
            },
            FieldMeta::Repr { loc, target } => match &f.repr {
                Some((first, _)) => Err(occurrence_error(AttrKey::Repr, *first, loc)),
                None => {
                    f.repr = Some((loc, target));
                    proof {
                        assert(f@ =~= (FieldPropsV { repr: f.repr, ..old(f)@ }));
                    }
                    Ok(())
                },
            },
            FieldMeta::Subst { loc, val } => match &f.subst {
                Some((first, _)) => Err(occurrence_error(AttrKey::Subst, *first, loc)),
                None => {
                    f.subst = Some((loc, val));
                    proof {
                        assert(f@ =~= (FieldPropsV { subst: opt_attr_view(f.subst), ..old(f)@ }));
                    }
                    Ok(())
                },
            },
        }
    }

    /// Appends a finished field descriptor.
    pub fn push_field(&mut self, f: FieldProps)
        ensures
            final(self)@ == (TypePropsV { fields: old(self)@.fields.push(f@), ..old(self)@ }),
    {
        let ghost fv = f@;
        self.fields.push(f);
        proof {
            assert(self.fields@.map_values(|x: FieldProps| x@) =~= old(
                self,
            ).fields@.map_values(|x: FieldProps| x@).push(fv));
            assert(self@ =~= (TypePropsV { fields: old(self)@.fields.push(fv), ..old(self)@ }));
        }
    }
}

/// True when the type projects in Single-Global-Record mode: the global
/// record name and record type are both declared.
pub open spec fn spec_is_single(tp: TypePropsV) -> bool {
    tp.type_rec_name is Some && tp.type_rec_type is Some
}

/// How many projection rules a field declares: its substitution role, its
/// format override, and its output field tag each count one.
pub open spec fn spec_role_count(f: FieldPropsV) -> int {
    (if f.subst is Some {
        1int
    } else {
        0int
    }) + (if f.format is Some {
        1int
    } else {
        0int
    }) + (if f.field_name is Some {
        1int
    } else {
        0int
    })
}

/// The conflict error for a field with more than one projection rule,
/// citing the two earliest rules in the order substitution, format
/// override, field tag.
pub open spec fn spec_conflict_pair(f: FieldPropsV, fi: int) -> SchemaError {
    match (f.subst, f.format, f.field_name) {
        (Some((l1, _)), Some((l2, _)), _) => SchemaError::ConflictingRules {
            field: fi as usize,
            first: l1,
            second: l2,
        },
        (Some((l1, _)), None, Some((l2, _))) => SchemaError::ConflictingRules {
            field: fi as usize,
            first: l1,
            second: l2,
        },
        (None, Some((l1, _)), Some((l2, _))) => SchemaError::ConflictingRules {
            field: fi as usize,
            first: l1,
            second: l2,
        },
        _ => SchemaError::NoRule { field: fi as usize },
    }
}

/// The location of an optional located attribute.
pub open spec fn spec_attr_loc(o: Option<(AttrLoc, Seq<char>)>) -> Option<AttrLoc> {
    match o {
        Some((l, _)) => Some(l),
        None => None,
    }
}

/// The registration checks on one field, in a fixed order: no local record
/// name/type under a global pair; exactly one projection rule; a field tag
/// outside a global pair needs its full local pair; a format override needs
/// exactly one placeholder; a substitution placeholder is non-empty.
pub open spec fn spec_check_field(tp: TypePropsV, f: FieldPropsV, fi: int) -> Result<
    (),
    SchemaError,
> {
    if spec_is_single(tp) && f.rec_name is Some {
        Err(
            SchemaError::GlobalRedefined {
                key: AttrKey::RecName,
                global: tp.type_rec_name.unwrap().0,
                local: f.rec_name.unwrap().0,
            },
        )
    } else if spec_is_single(tp) && f.rec_type is Some {
        Err(
            SchemaError::GlobalRedefined {
                key: AttrKey::RecType,
                global: tp.type_rec_type.unwrap().0,
                local: f.rec_type.unwrap().0,
            },
        )
    } else if spec_role_count(f) == 0 {
        Err(SchemaError::NoRule { field: fi as usize })
    } else if spec_role_count(f) > 1 {
        Err(spec_conflict_pair(f, fi))
    } else if !spec_is_single(tp) && f.field_name is Some && !(f.rec_name is Some
        && f.rec_type is Some) {
        Err(
            SchemaError::MissingLocalPair {
                field: fi as usize,
                field_attr: f.field_name.unwrap().0,
                rec_name: spec_attr_loc(f.rec_name),
                rec_type: spec_attr_loc(f.rec_type),
            },
        )
    } else if f.format is Some && !valid_fmt(f.format.unwrap().1) {
        Err(SchemaError::InvalidFormat { loc: f.format.unwrap().0 })
    } else if f.subst is Some && f.subst.unwrap().1.len() == 0 {
        Err(SchemaError::EmptySubst { loc: f.subst.unwrap().0 })
    } else {
        Ok(())
    }
}

/// The field checks, applied in declaration order; the first failure wins.
pub open spec fn spec_check_fields(tp: TypePropsV, i: int) -> Result<(), SchemaError>
    decreases tp.fields.len() - i,
{
    if i < 0 || i >= tp.fields.len() {
        Ok(())
    } else {
        match spec_check_field(tp, tp.fields[i], i) {
            Err(e) => Err(e),
            Ok(_) => spec_check_fields(tp, i + 1),
        }
    }
}

/// The cells one row must supply for the fields from position `i` on.
pub open spec fn sum_arities(fields: Seq<FieldPropsV>, i: int) -> nat
    decreases fields.len() - i,
{
    if i < 0 || i >= fields.len() {
        0nat
    } else {
        fields[i].arity + sum_arities(fields, i + 1)
    }
}

/// True when some field emits a record or a line, that is, is not a pure
/// substitution field.
pub open spec fn spec_has_emitter(fields: Seq<FieldPropsV>) -> bool {
    exists|i: int| 0 <= i < fields.len() && (#[trigger] fields[i]).subst is None
}

/// The whole-type registration check: a complete global pair or none, every
/// field check, a row arity that fits the machine, and, without a global
/// pair, at least one emitting field.
pub open spec fn spec_validate(tp: TypePropsV) -> Result<(), SchemaError> {
    match (tp.type_rec_name, tp.type_rec_type) {
        (Some((loc, _)), None) => Err(
            SchemaError::IncompleteGlobalPair { present: AttrKey::RecName, loc },
        ),
        (None, Some((loc, _))) => Err(
            SchemaError::IncompleteGlobalPair { present: AttrKey::RecType, loc },
        ),
        _ => match spec_check_fields(tp, 0) {
            Err(e) => Err(e),
            Ok(_) => if sum_arities(tp.fields, 0) > usize::MAX as nat {
                Err(SchemaError::ArityOverflow)
            } else if !spec_is_single(tp) && !spec_has_emitter(tp.fields) {
                Err(SchemaError::NoRecords)
            } else {
                Ok(())
            },
        },
    }
}

/// Well-formedness of one field within its type: exactly one projection
/// rule; no local record name/type under a global pair; a field tag outside
/// a global pair backed by its full local pair; a valid format override; a
/// non-empty substitution placeholder.
pub open spec fn wf_field(tp: TypePropsV, f: FieldPropsV) -> bool {
    &&& spec_role_count(f) == 1
    &&& (spec_is_single(tp) ==> f.rec_name is None && f.rec_type is None)
    &&& (!spec_is_single(tp) && f.field_name is Some ==> f.rec_name is Some && f.rec_type is Some)
    &&& (f.format is Some ==> valid_fmt(f.format.unwrap().1))
    &&& (f.subst is Some ==> f.subst.unwrap().1.len() > 0)
}

/// What the row deserialization engine relies on: the declared arities sum
/// to a row length the machine can address. A type used only for row
/// deserialization needs no projection attributes at all.
pub open spec fn wf_rows(tp: TypePropsV) -> bool {
    sum_arities(tp.fields, 0) <= usize::MAX as nat
}

/// Well-formedness of a registered type: what registration establishes and
/// the projection engine relies on.
pub open spec fn wf(tp: TypePropsV) -> bool {
    &&& (tp.type_rec_name is Some <==> tp.type_rec_type is Some)
    &&& (forall|i: int| 0 <= i < tp.fields.len() ==> wf_field(tp, #[trigger] tp.fields[i]))
    &&& wf_rows(tp)
    &&& (!spec_is_single(tp) ==> spec_has_emitter(tp.fields))
}

proof fn lemma_check_fields_ok(tp: TypePropsV, i: int)
    requires
        0 <= i <= tp.fields.len(),
    ensures
        (spec_check_fields(tp, i) is Ok) <==> (forall|j: int|
            i <= j < tp.fields.len() ==> wf_field(tp, #[trigger] tp.fields[j])),
    decreases tp.fields.len() - i,
{
    if i < tp.fields.len() {
        lemma_check_fields_ok(tp, i + 1);
        assert((spec_check_field(tp, tp.fields[i], i) is Ok) <==> wf_field(tp, tp.fields[i]));
    }
}

/// The validation check passes exactly on well-formed descriptors.
pub proof fn lemma_validate_iff_wf(tp: TypePropsV)
    ensures
        (spec_validate(tp) is Ok) <==> wf(tp),
{
    lemma_check_fields_ok(tp, 0);
}

impl TypeProps {
    fn check_field(&self, f: &FieldProps, fi: usize) -> (r: Result<(), SchemaError>)
        ensures
            r == spec_check_field(self@, f@, fi as int),
    {
        match (&self.type_rec_name, &self.type_rec_type) {
            (Some((gn, _)), Some((gt, _))) => {
                if let Some((l, _)) = &f.rec_name {
                    return Err(rec_def_error(AttrKey::RecName, *gn, *l));
                }
                if let Some((l, _)) = &f.rec_type {
                    return Err(rec_def_error(AttrKey::RecType, *gt, *l));
                }
            },
            _ => {},
        }
        let mut roles: usize = 0;
        if f.subst.is_some() {
            roles += 1;
        }
        if f.format.is_some() {
            roles += 1;
        }
        if f.field_name.is_some() {
            roles += 1;
        }
        if roles == 0 {
            return Err(SchemaError::NoRule { field: fi });
        }
        if roles > 1 {
            return Err(
                match (&f.subst, &f.format, &f.field_name) {
                    (Some((l1, _)), Some((l2, _)), _) => SchemaError::ConflictingRules {
                        field: fi,
                        first: *l1,
                        second: *l2,
                    },
                    (Some((l1, _)), None, Some((l2, _))) => SchemaError::ConflictingRules {
                        field: fi,
                        first: *l1,
                        second: *l2,
                    },
                    (None, Some((l1, _)), Some((l2, _))) => SchemaError::ConflictingRules {
                        field: fi,
                        first: *l1,
                        second: *l2,
                    },
                    _ => SchemaError::NoRule { field: fi },
                },
            );
        }
        let single = self.type_rec_name.is_some() && self.type_rec_type.is_some();
        if !single {
            if let Some((fl, _)) = &f.field_name {
                let pair_complete = f.rec_name.is_some() && f.rec_type.is_some();
                if !pair_complete {
                    let name_loc = match &f.rec_name {
                        Some((l, _)) => Some(*l),
                        None => None,
                    };
                    let type_loc = match &f.rec_type {
                        Some((l, _)) => Some(*l),
                        None => None,
                    };
                    return Err(
                        SchemaError::MissingLocalPair {
                            field: fi,
                            field_attr: *fl,
                            rec_name: name_loc,
                            rec_type: type_loc,
                        },
                    );
                }
            }
        }
        if let Some((l, t)) = &f.format {
            let ok = match fmt_holes(t.as_str()) {
                Some(n) => n == 1,
                None => false,
            };
            if !ok {
                return Err(SchemaError::InvalidFormat { loc: *l });
            }
        }
        if let Some((l, p)) = &f.subst {
            if p.as_str().is_empty() {
                return Err(SchemaError::EmptySubst { loc: *l });
            }
        }
        Ok(())
    }

    /// Checks the registration invariants of this descriptor; succeeds
    /// exactly on well-formed descriptors.
    pub fn validate(&self) -> (r: Result<(), SchemaError>)
        ensures
            r == spec_validate(self@),
            r is Ok <==> wf(self@),
    {
        proof {
            lemma_validate_iff_wf(self@);
        }
        match (&self.type_rec_name, &self.type_rec_type) {
            (Some((loc, _)), None) => {
                return Err(
                    SchemaError::IncompleteGlobalPair { present: AttrKey::RecName, loc: *loc },
                );
            },
            (None, Some((loc, _))) => {
                return Err(
                    SchemaError::IncompleteGlobalPair { present: AttrKey::RecType, loc: *loc },
                );
            },
            _ => {},
        }
        let mut i: usize = 0;
        while i < self.fields.len()
            invariant
                0 <= i <= self.fields@.len(),
                self@.fields.len() == self.fields@.len(),
                self@.type_rec_name is Some <==> self@.type_rec_type is Some,
                spec_check_fields(self@, 0) == spec_check_fields(self@, i as int),
            decreases self.fields@.len() - i,
        {
            proof {
                assert(self@.fields[i as int] == self.fields@[i as int]@);
            }
            match self.check_field(&self.fields[i], i) {
                Err(e) => {
                    proof {
                        assert(spec_check_fields(self@, i as int) == Err::<(), SchemaError>(e));
                    }
                    return Err(e);
                },
                Ok(_) => {},
            }
            i += 1;
        }
        let mut total: usize = 0;
        let mut k: usize = 0;
        while k < self.fields.len()
            invariant
                0 <= k <= self.fields@.len(),
                self@.fields.len() == self.fields@.len(),
                self@.type_rec_name is Some <==> self@.type_rec_type is Some,
                spec_check_fields(self@, 0) is Ok,
                sum_arities(self@.fields, 0) == total + sum_arities(self@.fields, k as int),
            decreases self.fields@.len() - k,
        {
            let arity = self.fields[k].arity;
            proof {
                assert(self@.fields[k as int] == self.fields@[k as int]@);
                assert(sum_arities(self@.fields, k as int) == self@.fields[k as int].arity
                    + sum_arities(self@.fields, k as int + 1));
            }
            if arity > usize::MAX - total {
                proof {
                    assert(sum_arities(self@.fields, 0) > usize::MAX as nat);
                }
                return Err(SchemaError::ArityOverflow);
            }
            total += arity;
            k += 1;
        }
        let single = self.type_rec_name.is_some() && self.type_rec_type.is_some();
        if !single {
            let mut found = false;
            let mut j: usize = 0;
            while j < self.fields.len()
                invariant
                    0 <= j <= self.fields@.len(),
                    self@.fields.len() == self.fields@.len(),
                    found <==> exists|m: int|
                        0 <= m < j && (#[trigger] self@.fields[m]).subst is None,
                decreases self.fields@.len() - j,
            {
                proof {
                    assert(self@.fields[j as int] == self.fields@[j as int]@);
                }
                if self.fields[j].subst.is_none() {
                    found = true;
                }
                j += 1;
            }
            if !found {
                return Err(SchemaError::NoRecords);
            }
        }
        Ok(())
    }
}

impl TypeProps {
    /// True when this type projects in Single-Global-Record mode.
    pub fn single_record_mode(&self) -> (r: bool)
        ensures
            r == spec_is_single(self@),
    {
        self.type_rec_name.is_some() && self.type_rec_type.is_some()
    }

    /// Checks that the declared field arities sum within the machine's
    /// addressable size: what the row deserialization engine presumes.
    pub fn rows_wf(&self) -> (r: bool)
        ensures
            r == wf_rows(self@),
    {
        let mut total: usize = 0;
        let mut k: usize = 0;
        while k < self.fields.len()
            invariant
                0 <= k <= self.fields@.len(),
                self@.fields.len() == self.fields@.len(),
                sum_arities(self@.fields, 0) == total + sum_arities(self@.fields, k as int),
            decreases self.fields@.len() - k,
        {
            let arity = self.fields[k].arity;
            proof {
                assert(self@.fields[k as int] == self.fields@[k as int]@);
                assert(sum_arities(self@.fields, k as int) == self@.fields[k as int].arity
                    + sum_arities(self@.fields, k as int + 1));
            }
            if arity > usize::MAX - total {
                proof {
                    assert(sum_arities(self@.fields, 0) > usize::MAX as nat);
                }
                return false;
            }
            total += arity;
            k += 1;
        }
        true
    }
}

/// The field descriptor a field declaration starts from, before its
/// attributes are applied.
pub open spec fn spec_init_field(fd: FieldDeclV) -> FieldPropsV {
    FieldPropsV {
        ident: fd.ident,
        rec_name: None,
        rec_type: None,
        field_name: None,
        format: None,
        repr: None,
        subst: None,
        elem: fd.elem,
        arity: fd.arity,
        optional: fd.optional,
    }
}

/// Collection of the type-level attributes, in declaration order; the
/// first conflict wins.
pub open spec fn spec_fold_struct_attrs(
    tp: TypePropsV,
    attrs: Seq<(Seq<char>, Seq<char>)>,
    i: int,
) -> Result<TypePropsV, SchemaError>
    decreases attrs.len() - i,
{
    if i < 0 || i >= attrs.len() {
        Ok(tp)
    } else {
        match spec_struct_meta(
            attrs[i].0,
            attrs[i].1,
            AttrLoc { scope: AttrScope::Type, index: i as usize },
        ) {
            Err(e) => Err(e),
            Ok(m) => match spec_apply_struct_meta(tp, m) {
                Err(e) => Err(e),
                Ok(tp2) => spec_fold_struct_attrs(tp2, attrs, i + 1),
            },
        }
    }
}

/// Collection of one field's attributes, in declaration order.
pub open spec fn spec_fold_field_attrs(
    tp: TypePropsV,
    f: FieldPropsV,
    attrs: Seq<(Seq<char>, Seq<char>)>,
    fi: int,
    i: int,
) -> Result<FieldPropsV, SchemaError>
    decreases attrs.len() - i,
{
    if i < 0 || i >= attrs.len() {
        Ok(f)
    } else {
        match spec_field_meta(
            attrs[i].0,
            attrs[i].1,
            AttrLoc { scope: AttrScope::Field(fi as usize), index: i as usize },
        ) {
            Err(e) => Err(e),
            Ok(m) => match spec_apply_field_meta(tp, f, m) {
                Err(e) => Err(e),
                Ok(f2) => spec_fold_field_attrs(tp, f2, attrs, fi, i + 1),
            },
        }
    }
}

/// Collection of the field declarations, in declaration order.
pub open spec fn spec_fold_fields(tp: TypePropsV, fields: Seq<FieldDeclV>, i: int) -> Result<
    TypePropsV,
    SchemaError,
>
    decreases fields.len() - i,
{
    if i < 0 || i >= fields.len() {
        Ok(tp)
    } else {
        match spec_fold_field_attrs(tp, spec_init_field(fields[i]), fields[i].attrs, i, 0) {
            Err(e) => Err(e),
            Ok(f) => spec_fold_fields(
                TypePropsV { fields: tp.fields.push(f), ..tp },
                fields,
                i + 1,
            ),
        }
    }
}

/// Collection of a whole declaration into a descriptor, without the final
/// validation.
pub open spec fn spec_collect(d: TypeDeclV) -> Result<TypePropsV, SchemaError> {
    let tp0 = TypePropsV {
        ident: d.ident,
        type_rec_name: None,
        type_rec_type: None,
        fields: Seq::empty(),
    };
    match spec_fold_struct_attrs(tp0, d.attrs, 0) {
        Err(e) => Err(e),
        Ok(tp1) => spec_fold_fields(tp1, d.fields, 0),
    }
}

/// Registration: collection followed by validation. A declaration that
/// breaks any invariant yields the error of the first break; no partial
/// schema is handed out.
pub open spec fn spec_register(d: TypeDeclV) -> Result<TypePropsV, SchemaError> {
    match spec_collect(d) {
        Err(e) => Err(e),
        Ok(tp) => match spec_validate(tp) {
            Err(e) => Err(e),
            Ok(_) => Ok(tp),
        },
    }
}

/// A descriptor that registration accepts is well-formed.
pub proof fn lemma_register_wf(d: TypeDeclV)
    ensures
        spec_register(d) is Ok ==> wf(spec_register(d).unwrap()),
{
    if spec_register(d) is Ok {
        lemma_validate_iff_wf(spec_register(d).unwrap());
    }
}

/// Builds and validates the descriptor of one declared type. Succeeds
/// exactly when the declaration meets every registration invariant; the
/// descriptor handed back is well-formed and immutable from here on.
pub fn register_type(decl: &TypeDecl) -> (r: Result<TypeProps, SchemaError>)
    ensures
        match r {
            Ok(tp) => spec_register(decl@) == Ok::<_, SchemaError>(tp@) && wf(tp@),
            Err(e) => spec_register(decl@) == Err::<TypePropsV, _>(e),
        },
{
    let ghost d = decl@;
    let mut tp = TypeProps::new(decl.ident.clone());
    let ghost tp0 = tp@;
    proof {
        assert(tp0 =~= (TypePropsV {
            ident: d.ident,
            type_rec_name: None,
            type_rec_type: None,
            fields: Seq::empty(),
        }));
    }
    let mut i: usize = 0;
    while i < decl.attrs.len()
        invariant
            d == decl@,
            0 <= i <= decl.attrs@.len(),
            d.attrs.len() == decl.attrs@.len(),
            tp0 == (TypePropsV {
                ident: d.ident,
                type_rec_name: None,
                type_rec_type: None,
                fields: Seq::empty(),
            }),
            spec_fold_struct_attrs(tp0, d.attrs, 0) == spec_fold_struct_attrs(tp@, d.attrs, i as int),
        decreases decl.attrs@.len() - i,
    {
        let kv = &decl.attrs[i];
        proof {
            assert(d.attrs[i as int] == (kv.0@, kv.1@));
        }
        let m = match StructMeta::parse(
            kv.0.as_str(),
            kv.1.as_str(),
            AttrLoc { scope: AttrScope::Type, index: i },
        ) {
            Ok(m) => m,
            Err(e) => {
                proof {
                    assert(spec_fold_struct_attrs(tp@, d.attrs, i as int) == Err::<
                        TypePropsV,
                        _,
                    >(e));
                    assert(spec_register(d) == Err::<TypePropsV, _>(e));
                }
                return Err(e);
            },
        };
        match tp.apply_struct_meta(m) {
            Ok(_) => {},
            Err(e) => {
                proof {
                    assert(spec_fold_struct_attrs(tp@, d.attrs, i as int) == Err::<
                        TypePropsV,
                        _,
                    >(e));
                    assert(spec_register(d) == Err::<TypePropsV, _>(e));
                }
                return Err(e);
            },
        }
        i += 1;
    }
    let ghost tp1 = tp@;
    assert(spec_fold_struct_attrs(tp0, d.attrs, 0) == Ok::<_, SchemaError>(tp1));
    let mut fi: usize = 0;
    while fi < decl.fields.len()
        invariant
            d == decl@,
            0 <= fi <= decl.fields@.len(),
            d.fields.len() == decl.fields@.len(),
            tp0 == (TypePropsV {
                ident: d.ident,
                type_rec_name: None,
                type_rec_type: None,
                fields: Seq::empty(),
            }),
            spec_fold_struct_attrs(tp0, d.attrs, 0) == Ok::<_, SchemaError>(tp1),
            spec_fold_fields(tp1, d.fields, 0) == spec_fold_fields(tp@, d.fields, fi as int),
            tp@.type_rec_name == tp1.type_rec_name,
            tp@.type_rec_type == tp1.type_rec_type,
        decreases decl.fields@.len() - fi,
    {
        let fd = &decl.fields[fi];
        proof {
            assert(d.fields[fi as int] == fd@);
        }
        let mut fp = FieldProps::new(fd.ident.clone());
        fp.elem = fd.elem.dup();
        fp.arity = fd.arity;
        fp.optional = fd.optional;
        proof {
            assert(fp@ =~= spec_init_field(d.fields[fi as int]));
        }
        let mut ai: usize = 0;
        while ai < fd.attrs.len()
            invariant
                d == decl@,
                0 <= fi < decl.fields@.len(),
                d.fields.len() == decl.fields@.len(),
                fd == &decl.fields[fi as int],
                d.fields[fi as int] == fd@,
                0 <= ai <= fd.attrs@.len(),
                d.fields[fi as int].attrs.len() == fd.attrs@.len(),
                tp0 == (TypePropsV {
                    ident: d.ident,
                    type_rec_name: None,
                    type_rec_type: None,
                    fields: Seq::empty(),
                }),
                spec_fold_struct_attrs(tp0, d.attrs, 0) == Ok::<_, SchemaError>(tp1),
                spec_fold_fields(tp1, d.fields, 0) == spec_fold_fields(tp@, d.fields, fi as int),
                spec_fold_field_attrs(
                    tp@,
                    spec_init_field(d.fields[fi as int]),
                    d.fields[fi as int].attrs,
                    fi as int,
                    0,
                ) == spec_fold_field_attrs(
                    tp@,
                    fp@,
                    d.fields[fi as int].attrs,
                    fi as int,
                    ai as int,
                ),
            decreases fd.attrs@.len() - ai,
        {
            let kv = &fd.attrs[ai];
            proof {
                assert(d.fields[fi as int].attrs[ai as int] == (kv.0@, kv.1@));
            }
            let m = match FieldMeta::parse(
                kv.0.as_str(),
                kv.1.as_str(),
                AttrLoc { scope: AttrScope::Field(fi), index: ai },
            ) {
                Ok(m) => m,
                Err(e) => {
                    proof {
                        assert(spec_fold_field_attrs(
                            tp@,
                            fp@,
                            d.fields[fi as int].attrs,
                            fi as int,
                            ai as int,
                        ) == Err::<FieldPropsV, _>(e));
                        assert(spec_fold_fields(tp@, d.fields, fi as int) == Err::<
                            TypePropsV,
                            _,
                        >(e));
                        assert(spec_register(d) == Err::<TypePropsV, _>(e));
                    }
                    return Err(e);
                },
            };
            match tp.apply_field_meta(&mut fp, m) {
                Ok(_) => {},
                Err(e) => {
                    proof {
                        assert(spec_fold_field_attrs(
                            tp@,
                            fp@,
                            d.fields[fi as int].attrs,
                            fi as int,
                            ai as int,
                        ) == Err::<FieldPropsV, _>(e));
                        assert(spec_fold_fields(tp@, d.fields, fi as int) == Err::<
                            TypePropsV,
                            _,
                        >(e));
                        assert(spec_register(d) == Err::<TypePropsV, _>(e));
                    }
                    return Err(e);
                },
            }
            ai += 1;
        }
        tp.push_field(fp);
        fi += 1;
    }
    assert(spec_fold_fields(tp1, d.fields, 0) == Ok::<_, SchemaError>(tp@));
    match tp.validate() {
        Ok(_) => {
            proof {
                lemma_validate_iff_wf(tp@);
            }
            Ok(tp)
        },
        Err(e) => Err(e),
    }
}

} // verus!
