//! Runtime field values: what a parsed row yields per cell and what record
//! projection renders, together with the representation cast applied by a
//! `repr` attribute.

use vstd::prelude::*;
use crate::text::dec_u64;
use crate::text::spec_dec;

verus! {

use vstd::string::*;

/// A runtime value of one field slot.
///
/// A numeric value carries its decimal text rendering; an enumerated value
/// carries the variant's display name and its ordinal index among the
/// declared variant names.
#[derive(Debug, Clone, PartialEq)]
pub enum Value {
    Text(String),
    Number(String),
    Variant { name: String, ordinal: usize },
}

/// The mathematical shape of a `Value`.
pub enum ValueV {
    Text(Seq<char>),
    Number(Seq<char>),
    Variant { name: Seq<char>, ordinal: nat },
}

impl View for Value {
    type V = ValueV;

    open spec fn view(&self) -> ValueV {
        match self {
            Value::Text(s) => ValueV::Text(s@),
            Value::Number(t) => ValueV::Number(t@),
            Value::Variant { name, ordinal } => ValueV::Variant {
                name: name@,
                ordinal: ordinal as nat,
            },
        }
    }
}

/// The display text of a value: its text, its decimal text, or an
/// enumerated variant's display name.
pub open spec fn spec_display(v: ValueV) -> Seq<char> {
    match v {
        ValueV::Text(s) => s,
        ValueV::Number(t) => t,
        ValueV::Variant { name, .. } => name,
    }
}

/// The unsigned integer type a `repr` attribute casts to before rendering.
#[derive(Debug, Clone, Copy, PartialEq, Eq, Structural)]
pub enum ReprTarget {
    U8,
    U16,
    U32,
    U64,
    Usize,
}

/// The value of `n` after the cast declared by `t`: reduction modulo the
/// target type's modulus.
pub open spec fn spec_repr_value(t: ReprTarget, n: nat) -> nat {
    match t {
        ReprTarget::U8 => n % 0x100,
        ReprTarget::U16 => n % 0x10000,
        ReprTarget::U32 => n % 0x1_0000_0000,
        ReprTarget::U64 => n % 0x1_0000_0000_0000_0000,
        ReprTarget::Usize => n % (usize::MAX as nat + 1),
    }
}

/// The text a field's value contributes to the output: the display text,
/// or, under a `repr` cast, an enumerated value's cast ordinal rendered in
/// decimal (never the variant's display name).
pub open spec fn spec_value_text(repr: Option<ReprTarget>, v: ValueV) -> Seq<char> {
    match repr {
        None => spec_display(v),
        Some(t) => match v {
            ValueV::Variant { ordinal, .. } => spec_dec(spec_repr_value(t, ordinal)),
            _ => spec_display(v),
        },
    }
}

impl Value {
    /// The display text of this value.
    pub fn display_text(&self) -> (r: String)
        ensures
            r@ == spec_display(self@),
    {
        match self {
            Value::Text(s) => s.clone(),
            Value::Number(t) => t.clone(),
            Value::Variant { name, .. } => name.clone(),
        }
    }

    /// The output text of this value under the given representation cast.
    pub fn render(&self, repr: Option<ReprTarget>) -> (r: String)
        ensures
            r@ == spec_value_text(repr, self@),
    {
        match (repr, self) {
            (Some(t), Value::Variant { ordinal, .. }) => {
                let n: u64 = *ordinal as u64;
                let cast: u64 = match t {
                    ReprTarget::U8 => n % 0x100,
                    ReprTarget::U16 => n % 0x10000,
                    ReprTarget::U32 => n % 0x1_0000_0000,
                    ReprTarget::U64 => n,
                    ReprTarget::Usize => n,
                };
                proof {
                    assert(cast as nat == spec_repr_value(t, *ordinal as nat));
                }
                dec_u64(cast)
            },
            (_, v) => v.display_text(),
        }
    }
}

} // verus!
