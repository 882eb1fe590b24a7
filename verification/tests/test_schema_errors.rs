use epics_gen::register_type;
use epics_gen::AttrKey;
use epics_gen::AttrLoc;
use epics_gen::AttrScope;
use epics_gen::ElemType;
use epics_gen::FieldDecl;
use epics_gen::SchemaError;
use epics_gen::TypeDecl;

fn attr(key: &str, value: &str) -> (String, String) {
    (key.to_string(), value.to_string())
}

fn field(ident: &str, attrs: Vec<(String, String)>) -> FieldDecl {
    FieldDecl { ident: ident.to_string(), attrs, elem: ElemType::Textual, arity: 1, optional: false }
}

fn type_loc(index: usize) -> AttrLoc {
    AttrLoc { scope: AttrScope::Type, index }
}

fn field_loc(field: usize, index: usize) -> AttrLoc {
    AttrLoc { scope: AttrScope::Field(field), index }
}

#[test]
fn duplicate_type_attr_cites_both() {
    let decl = TypeDecl {
        ident: "T".to_string(),
        attrs: vec![attr("rec_name", "A"), attr("rec_name", "B")],
        fields: vec![],
    };
    assert_eq!(
        register_type(&decl).unwrap_err(),
        SchemaError::DuplicateAttr {
            key: AttrKey::RecName,
            first: type_loc(0),
            second: type_loc(1),
        }
    );
}

#[test]
fn duplicate_field_attr_cites_both() {
    let decl = TypeDecl {
        ident: "T".to_string(),
        attrs: vec![],
        fields: vec![field("f", vec![attr("subst", "$(A)"), attr("subst", "$(B)")])],
    };
    assert_eq!(
        register_type(&decl).unwrap_err(),
        SchemaError::DuplicateAttr {
            key: AttrKey::Subst,
            first: field_loc(0, 0),
            second: field_loc(0, 1),
        }
    );
}

#[test]
fn local_rec_name_under_global_pair_is_rejected() {
    let decl = TypeDecl {
        ident: "T".to_string(),
        attrs: vec![attr("rec_name", "G"), attr("rec_type", "ao")],
        fields: vec![field("f", vec![attr("rec_name", "L"), attr("field", "VAL")])],
    };
    assert_eq!(
        register_type(&decl).unwrap_err(),
        SchemaError::GlobalRedefined {
            key: AttrKey::RecName,
            global: type_loc(0),
            local: field_loc(0, 0),
        }
    );
}

#[test]
fn half_global_pair_is_rejected() {
    let decl = TypeDecl {
        ident: "T".to_string(),
        attrs: vec![attr("rec_name", "G")],
        fields: vec![field("f", vec![attr("field", "VAL")])],
    };
    assert_eq!(
        register_type(&decl).unwrap_err(),
        SchemaError::IncompleteGlobalPair { present: AttrKey::RecName, loc: type_loc(0) }
    );
}

#[test]
fn field_without_any_rule_is_rejected() {
    let decl = TypeDecl {
        ident: "T".to_string(),
        attrs: vec![attr("rec_name", "G"), attr("rec_type", "ao")],
        fields: vec![field("f", vec![])],
    };
    assert_eq!(register_type(&decl).unwrap_err(), SchemaError::NoRule { field: 0 });
}

#[test]
fn conflicting_rules_are_rejected() {
    let decl = TypeDecl {
        ident: "T".to_string(),
        attrs: vec![],
        fields: vec![field("f", vec![attr("subst", "$(A)"), attr("fmt", "line {}")])],
    };
    assert_eq!(
        register_type(&decl).unwrap_err(),
        SchemaError::ConflictingRules {
            field: 0,
            first: field_loc(0, 0),
            second: field_loc(0, 1),
        }
    );
}

#[test]
fn field_tag_without_local_pair_is_rejected() {
    let decl = TypeDecl {
        ident: "T".to_string(),
        attrs: vec![],
        fields: vec![field("f", vec![attr("field", "VAL"), attr("rec_name", "R")])],
    };
    assert_eq!(
        register_type(&decl).unwrap_err(),
        SchemaError::MissingLocalPair {
            field: 0,
            field_attr: field_loc(0, 0),
            rec_name: Some(field_loc(0, 1)),
            rec_type: None,
        }
    );
}

#[test]
fn format_without_placeholder_is_rejected() {
    let decl = TypeDecl {
        ident: "T".to_string(),
        attrs: vec![],
        fields: vec![field("f", vec![attr("fmt", "no placeholder")])],
    };
    assert_eq!(
        register_type(&decl).unwrap_err(),
        SchemaError::InvalidFormat { loc: field_loc(0, 0) }
    );
}

#[test]
fn format_with_stray_brace_is_rejected() {
    let decl = TypeDecl {
        ident: "T".to_string(),
        attrs: vec![],
        fields: vec![field("f", vec![attr("fmt", "open { and {}")])],
    };
    assert_eq!(
        register_type(&decl).unwrap_err(),
        SchemaError::InvalidFormat { loc: field_loc(0, 0) }
    );
}

#[test]
fn empty_subst_placeholder_is_rejected() {
    let decl = TypeDecl {
        ident: "T".to_string(),
        attrs: vec![],
        fields: vec![field("f", vec![attr("subst", "")])],
    };
    assert_eq!(register_type(&decl).unwrap_err(), SchemaError::EmptySubst { loc: field_loc(0, 0) });
}

#[test]
fn all_subst_without_global_pair_is_rejected() {
    let decl = TypeDecl {
        ident: "T".to_string(),
        attrs: vec![],
        fields: vec![field("f", vec![attr("subst", "$(A)")])],
    };
    assert_eq!(register_type(&decl).unwrap_err(), SchemaError::NoRecords);
}

#[test]
fn unknown_attribute_is_rejected() {
    let decl = TypeDecl {
        ident: "T".to_string(),
        attrs: vec![attr("bogus", "x")],
        fields: vec![],
    };
    assert_eq!(register_type(&decl).unwrap_err(), SchemaError::UnknownAttr { loc: type_loc(0) });
}

#[test]
fn unknown_repr_target_is_rejected() {
    let decl = TypeDecl {
        ident: "T".to_string(),
        attrs: vec![],
        fields: vec![field("f", vec![attr("field", "VAL"), attr("repr", "f32")])],
    };
    assert_eq!(register_type(&decl).unwrap_err(), SchemaError::UnknownRepr { loc: field_loc(0, 1) });
}

#[test]
fn arity_sum_past_usize_is_rejected() {
    let mut a = field("a", vec![attr("subst", "$(A)")]);
    a.arity = usize::MAX;
    let mut b = field("b", vec![attr("fmt", "line {}")]);
    b.arity = 2;
    let decl = TypeDecl { ident: "T".to_string(), attrs: vec![], fields: vec![a, b] };
    assert_eq!(register_type(&decl).unwrap_err(), SchemaError::ArityOverflow);
}
