use epics_gen::register_type;
use epics_gen::CellValue;
use epics_gen::Context;
use epics_gen::ElemType;
use epics_gen::FieldDecl;
use epics_gen::FieldProps;
use epics_gen::ParseError;
use epics_gen::ParseErrorKind;
use epics_gen::RowError;
use epics_gen::TypeDecl;
use epics_gen::TypeProps;
use epics_gen::Value;

fn attr(key: &str, value: &str) -> (String, String) {
    (key.to_string(), value.to_string())
}

fn field(ident: &str, attrs: Vec<(String, String)>) -> FieldDecl {
    FieldDecl { ident: ident.to_string(), attrs, elem: ElemType::Textual, arity: 1, optional: false }
}

fn row_field(ident: &str, elem: ElemType) -> FieldProps {
    let mut f = FieldProps::new(ident.to_string());
    f.elem = elem;
    f
}

fn row_schema(fields: Vec<FieldProps>) -> TypeProps {
    TypeProps { ident: "T".to_string(), type_rec_name: None, type_rec_type: None, fields }
}

#[test]
fn enum_and_float_row() {
    let schema = row_schema(vec![
        row_field(
            "enm",
            ElemType::Enumerated(vec![
                "First".to_string(),
                "Second".to_string(),
                "Third".to_string(),
            ]),
        ),
        row_field("flt", ElemType::Numeric),
    ]);
    let row = vec![
        CellValue::Text("Second".to_string()),
        CellValue::Number("3.14159265358979".to_string()),
    ];
    let parsed = schema.from_xlsx_row(&row, 0, "tbl").unwrap();
    assert_eq!(parsed[0][0], Some(Value::Variant { name: "Second".to_string(), ordinal: 1 }));
    assert_eq!(parsed[1][0], Some(Value::Number("3.14159265358979".to_string())));
}

#[test]
fn blank_optional_absorbed_blank_required_aborts() {
    let mut b = row_field("b", ElemType::Numeric);
    b.optional = true;
    let schema = row_schema(vec![row_field("a", ElemType::Numeric), b]);

    let row = vec![CellValue::Number("1.5".to_string()), CellValue::Blank];
    let parsed = schema.from_xlsx_row(&row, 0, "tbl").unwrap();
    assert_eq!(parsed[0][0], Some(Value::Number("1.5".to_string())));
    assert_eq!(parsed[1][0], None);

    let row = vec![CellValue::Blank, CellValue::Number("1.5".to_string())];
    let err = schema.from_xlsx_row(&row, 7, "tbl").unwrap_err();
    match err {
        RowError::Cell(e) => {
            assert_eq!(e.kind(), ParseErrorKind::ValueMissing);
            let loc = e.location.unwrap();
            assert_eq!(loc.row, 7);
            assert_eq!(loc.col, 0);
            assert_eq!(loc.content, "");
            assert_eq!(loc.context, Context::Table("tbl".to_string()));
        },
        other => panic!("expected a cell error, got {:?}", other),
    }
}

#[test]
fn blank_required_cites_exact_column() {
    let schema = row_schema(vec![
        row_field("a", ElemType::Numeric),
        row_field("b", ElemType::Numeric),
    ]);
    let row = vec![CellValue::Number("1".to_string()), CellValue::Blank];
    let err = schema.from_xlsx_row(&row, 4, "tbl").unwrap_err();
    match err {
        RowError::Cell(e) => {
            assert_eq!(e.kind(), ParseErrorKind::ValueMissing);
            let loc = e.location.unwrap();
            assert_eq!(loc.row, 4);
            assert_eq!(loc.col, 1);
        },
        other => panic!("expected a cell error, got {:?}", other),
    }
}

#[test]
fn array_field_consumes_two_consecutive_cells() {
    let mut arr = row_field("floats", ElemType::Numeric);
    arr.arity = 2;
    let schema = row_schema(vec![row_field("row_id", ElemType::Textual), arr]);
    let row = vec![
        CellValue::Text("x".to_string()),
        CellValue::Number("0.1".to_string()),
        CellValue::Number("0.2".to_string()),
    ];
    let parsed = schema.from_xlsx_row(&row, 0, "tbl").unwrap();
    assert_eq!(
        parsed[1],
        vec![
            Some(Value::Number("0.1".to_string())),
            Some(Value::Number("0.2".to_string())),
        ]
    );
}

#[test]
fn row_length_mismatch_is_a_distinct_error() {
    let schema = row_schema(vec![
        row_field("a", ElemType::Numeric),
        row_field("b", ElemType::Numeric),
    ]);
    let row = vec![CellValue::Number("1".to_string())];
    assert_eq!(
        schema.from_xlsx_row(&row, 0, "tbl").unwrap_err(),
        RowError::LengthMismatch { expected: 2, found: 1 }
    );
}

#[test]
fn parse_table_walks_rows_in_order() {
    let schema = row_schema(vec![row_field("a", ElemType::Numeric)]);
    let rows = vec![
        vec![CellValue::Number("1".to_string())],
        vec![CellValue::Number("2".to_string())],
    ];
    let parsed = schema.parse_table(&rows, "tbl").unwrap();
    assert_eq!(parsed.len(), 2);
    assert_eq!(parsed[0][0][0], Some(Value::Number("1".to_string())));
    assert_eq!(parsed[1][0][0], Some(Value::Number("2".to_string())));

    let rows = vec![
        vec![CellValue::Number("1".to_string())],
        vec![CellValue::Blank],
    ];
    let err = schema.parse_table(&rows, "tbl").unwrap_err();
    match err {
        RowError::Cell(e) => {
            let loc = e.location.unwrap();
            assert_eq!(loc.row, 1);
            assert_eq!(loc.col, 0);
        },
        other => panic!("expected a cell error, got {:?}", other),
    }
}

#[test]
fn subst_placeholder_replaced_everywhere_and_absent_from_output() {
    let decl = TypeDecl {
        ident: "T".to_string(),
        attrs: vec![],
        fields: vec![
            field("name", vec![attr("subst", "$(X)")]),
            field("val", vec![attr("fmt", "a$(X)b{}c$(X)d")]),
        ],
    };
    let schema = register_type(&decl).unwrap();
    let values = vec![
        Value::Text("AB".to_string()),
        Value::Number("1.5".to_string()),
    ];
    let out = schema.generate(&values).unwrap();
    assert_eq!(out, "aABb1.5cABd\n");
    assert!(!out.contains("$(X)"));
}

#[test]
fn repr_truncates_to_target_width() {
    let decl = TypeDecl {
        ident: "T".to_string(),
        attrs: vec![],
        fields: vec![field(
            "name",
            vec![
                attr("rec_name", "R"),
                attr("rec_type", "ao"),
                attr("field", "VAL"),
                attr("repr", "u8"),
            ],
        )],
    };
    let schema = register_type(&decl).unwrap();
    let values = vec![Value::Variant { name: "Big".to_string(), ordinal: 300 }];
    assert_eq!(schema.generate(&values).unwrap(), "record(ao, \"R\") {\n  field(VAL, \"44\")\n}\n");
}

#[test]
fn subst_applies_to_global_record_name() {
    let decl = TypeDecl {
        ident: "T".to_string(),
        attrs: vec![attr("rec_name", "$(P)Out"), attr("rec_type", "ao")],
        fields: vec![
            field("p", vec![attr("subst", "$(P)")]),
            field("val", vec![attr("field", "VAL")]),
        ],
    };
    let schema = register_type(&decl).unwrap();
    let values = vec![
        Value::Text("Dev:".to_string()),
        Value::Number("2".to_string()),
    ];
    assert_eq!(
        schema.generate(&values).unwrap(),
        "record(ao, \"Dev:Out\") {\n  field(VAL, \"2\")\n}\n"
    );
}

#[test]
fn message_without_location() {
    assert_eq!(ParseError::new(ParseErrorKind::InvalidValue).message(), "Invalid value.");
    assert_eq!(ParseError::new(ParseErrorKind::ValueMissing).message(), "Value is missing.");
    assert_eq!(ParseError::new(ParseErrorKind::InvalidTableName).message(), "Invalid table name.");
    assert_eq!(ParseError::new(ParseErrorKind::InvalidSheetName).message(), "Invalid sheet name.");
}

#[test]
fn message_with_table_location() {
    let e = ParseError::new_in_table(
        ParseErrorKind::ValueMissing,
        3,
        2,
        "foo".to_string(),
        "test_table".to_string(),
    );
    assert_eq!(e.kind(), ParseErrorKind::ValueMissing);
    assert_eq!(
        e.message(),
        "Value is missing, Location: Table: test_table, Row: 3, Col: 2, Value: foo "
    );
}

#[test]
fn message_with_sheet_location() {
    let e = ParseError::new_in_sheet(
        ParseErrorKind::InvalidSheetName,
        0,
        0,
        String::new(),
        "Sheet1".to_string(),
    );
    assert_eq!(
        e.message(),
        "Invalid sheet name, Location: Sheet: Sheet1, Row: 0, Col: 0, Value:  "
    );
}

#[test]
fn validate_accepts_a_registered_schema() {
    let decl = TypeDecl {
        ident: "T".to_string(),
        attrs: vec![attr("rec_name", "N"), attr("rec_type", "ao")],
        fields: vec![field("val", vec![attr("field", "VAL")])],
    };
    let schema = register_type(&decl).unwrap();
    assert!(schema.validate().is_ok());
}

#[test]
fn mode_and_arity_checks() {
    let single = register_type(&TypeDecl {
        ident: "T".to_string(),
        attrs: vec![attr("rec_name", "N"), attr("rec_type", "ao")],
        fields: vec![field("val", vec![attr("field", "VAL")])],
    })
    .unwrap();
    assert!(single.single_record_mode());
    assert!(single.rows_wf());

    let multiple = register_type(&TypeDecl {
        ident: "T".to_string(),
        attrs: vec![],
        fields: vec![field("val", vec![attr("fmt", "v {}")])],
    })
    .unwrap();
    assert!(!multiple.single_record_mode());

    let mut huge = row_field("a", ElemType::Numeric);
    huge.arity = usize::MAX;
    let mut one = row_field("b", ElemType::Numeric);
    one.arity = 2;
    let schema = row_schema(vec![huge, one]);
    assert!(!schema.rows_wf());
}

#[test]
fn value_braces_stay_literal() {
    let decl = TypeDecl {
        ident: "T".to_string(),
        attrs: vec![attr("rec_name", "N"), attr("rec_type", "ao")],
        fields: vec![field("val", vec![attr("field", "VAL")])],
    };
    let schema = register_type(&decl).unwrap();
    let values = vec![Value::Text("{}".to_string())];
    assert_eq!(
        schema.generate(&values).unwrap(),
        "record(ao, \"N\") {\n  field(VAL, \"{}\")\n}\n"
    );
}

#[test]
fn boolean_and_error_cells_are_invalid_values() {
    let schema = row_schema(vec![row_field("a", ElemType::Numeric)]);
    let row = vec![CellValue::Boolean(true)];
    match schema.from_xlsx_row(&row, 0, "tbl").unwrap_err() {
        RowError::Cell(e) => {
            assert_eq!(e.kind(), ParseErrorKind::InvalidValue);
            assert_eq!(e.location.unwrap().content, "true");
        },
        other => panic!("expected a cell error, got {:?}", other),
    }
    let row = vec![CellValue::Error("#DIV/0!".to_string())];
    match schema.from_xlsx_row(&row, 0, "tbl").unwrap_err() {
        RowError::Cell(e) => {
            assert_eq!(e.kind(), ParseErrorKind::InvalidValue);
            assert_eq!(e.location.unwrap().content, "#DIV/0!");
        },
        other => panic!("expected a cell error, got {:?}", other),
    }
}
