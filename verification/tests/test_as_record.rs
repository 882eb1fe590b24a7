use epics_gen::register_type;
use epics_gen::ElemType;
use epics_gen::FieldDecl;
use epics_gen::TypeDecl;
use epics_gen::Value;

fn attr(key: &str, value: &str) -> (String, String) {
    (key.to_string(), value.to_string())
}

fn field(ident: &str, attrs: Vec<(String, String)>) -> FieldDecl {
    FieldDecl { ident: ident.to_string(), attrs, elem: ElemType::Textual, arity: 1, optional: false }
}

#[test]
fn test_as_record_single() {
    let decl = TypeDecl {
        ident: "TestStruct".to_string(),
        attrs: vec![attr("rec_name", "$(P)Voltage"), attr("rec_type", "ao")],
        fields: vec![
            field("desc", vec![attr("field", "DESC")]),
            field("egu", vec![attr("field", "EGU")]),
            field("val", vec![attr("field", "VAL")]),
        ],
    };
    let schema = register_type(&decl).unwrap();

    let test_struct = vec![
        Value::Text("Output Voltage".to_string()),
        Value::Text("V".to_string()),
        Value::Number(format!("{}", 0.5)),
    ];

    assert_eq!(
        schema.generate(&test_struct).unwrap(),
        r#"record(ao, "$(P)Voltage") {
  field(DESC, "Output Voltage")
  field(EGU, "V")
  field(VAL, "0.5")
}
"#
    );
}

#[test]
fn test_as_record_multiple() {
    let decl = TypeDecl {
        ident: "TestStruct".to_string(),
        attrs: vec![],
        fields: vec![
            field(
                "voltage",
                vec![
                    attr("rec_name", "$(P)Voltage"),
                    attr("rec_type", "ao"),
                    attr("field", "VAL"),
                ],
            ),
            field(
                "current",
                vec![
                    attr("rec_name", "$(P)Current"),
                    attr("rec_type", "ao"),
                    attr("field", "VAL"),
                ],
            ),
            field(
                "slew_rate",
                vec![
                    attr("rec_name", "$(P)SlewRate"),
                    attr("rec_type", "ao"),
                    attr("field", "VAL"),
                ],
            ),
        ],
    };
    let schema = register_type(&decl).unwrap();

    let test_struct = vec![
        Value::Number(format!("{}", 5.5)),
        Value::Number(format!("{}", 0.5)),
        Value::Number(format!("{}", 0.05)),
    ];

    assert_eq!(
        schema.generate(&test_struct).unwrap(),
        r#"record(ao, "$(P)Voltage") {
  field(VAL, "5.5")
}
record(ao, "$(P)Current") {
  field(VAL, "0.5")
}
record(ao, "$(P)SlewRate") {
  field(VAL, "0.05")
}
"#
    );
}

#[test]
fn test_as_record_fmt() {
    let decl = TypeDecl {
        ident: "TestStruct".to_string(),
        attrs: vec![],
        fields: vec![
            field(
                "txt",
                vec![attr(
                    "fmt",
                    r#"record(waveform, "$(P)Label-I") {{ field(INP, "{{const:"{}"}}") }}"#,
                )],
            ),
            field(
                "val",
                vec![attr("fmt", r#"record(ao, "$(P)SomeOut") {{ field(VAL, "{}") }}"#)],
            ),
        ],
    };
    let schema = register_type(&decl).unwrap();

    let test_struct = vec![
        Value::Text("Frac Syn".to_string()),
        Value::Number(format!("{}", 0.5)),
    ];

    println!("test_struct: {}", schema.generate(&test_struct).unwrap());
    assert_eq!(
        schema.generate(&test_struct).unwrap(),
        r#"record(waveform, "$(P)Label-I") { field(INP, "{const:"Frac Syn"}") }
record(ao, "$(P)SomeOut") { field(VAL, "0.5") }
"#
    );
}

#[test]
fn test_as_record_named() {
    let decl = TypeDecl {
        ident: "TestStruct".to_string(),
        attrs: vec![],
        fields: vec![
            field("name", vec![attr("subst", "$(MxcId)")]),
            field(
                "txt",
                vec![attr(
                    "fmt",
                    r#"record(waveform, "$(P)$(MxcId)Label-I") {{ field(INP, "{{const:"{}"}}") }}"#,
                )],
            ),
            field(
                "val",
                vec![attr("fmt", r#"record(ao, "$(P)$(MxcId)SomeOut") {{ field(VAL, "{}") }}"#)],
            ),
        ],
    };
    let schema = register_type(&decl).unwrap();

    let test_struct = vec![
        Value::Variant { name: "Mxc0".to_string(), ordinal: 0 },
        Value::Text("Frac Syn".to_string()),
        Value::Number(format!("{}", 0.5)),
    ];

    assert_eq!(
        schema.generate(&test_struct).unwrap(),
        r#"record(waveform, "$(P)Mxc0Label-I") { field(INP, "{const:"Frac Syn"}") }
record(ao, "$(P)Mxc0SomeOut") { field(VAL, "0.5") }
"#
    );
}

#[test]
fn test_as_record_repr() {
    let decl = TypeDecl {
        ident: "TestStruct".to_string(),
        attrs: vec![],
        fields: vec![field(
            "name",
            vec![
                attr("rec_name", "TestRec"),
                attr("rec_type", "ao"),
                attr("field", "VAL"),
                attr("repr", "u8"),
            ],
        )],
    };
    let schema = register_type(&decl).unwrap();

    let test_struct = vec![Value::Variant { name: "Mxc2".to_string(), ordinal: 2 }];

    assert_eq!(
        schema.generate(&test_struct).unwrap(),
        "record(ao, \"TestRec\") {\n  field(VAL, \"2\")\n}\n"
    );
}

#[test]
fn test_as_record_global() {
    let decl = TypeDecl {
        ident: "TestStruct".to_string(),
        attrs: vec![attr("rec_name", "$(P)Voltage"), attr("rec_type", "ao")],
        fields: vec![
            field("desc", vec![attr("field", "DESC")]),
            field("egu", vec![attr("field", "EGU")]),
            field("val", vec![attr("field", "VAL")]),
        ],
    };
    let schema = register_type(&decl).unwrap();

    let test_struct = vec![
        Value::Text("Output Voltage".to_string()),
        Value::Text("V".to_string()),
        Value::Number(format!("{}", 0.5)),
    ];

    assert_eq!(
        schema.generate(&test_struct).unwrap(),
        r#"record(ao, "$(P)Voltage") {
  field(DESC, "Output Voltage")
  field(EGU, "V")
  field(VAL, "0.5")
}
"#
    );
}

#[test]
fn test_as_record_local() {
    let decl = TypeDecl {
        ident: "TestStruct".to_string(),
        attrs: vec![],
        fields: vec![
            field(
                "voltage",
                vec![
                    attr("rec_name", "$(P)Voltage"),
                    attr("rec_type", "ao"),
                    attr("field", "VAL"),
                ],
            ),
            field(
                "current",
                vec![
                    attr("rec_name", "$(P)Current"),
                    attr("rec_type", "ao"),
                    attr("field", "VAL"),
                ],
            ),
            field(
                "slew_rate",
                vec![
                    attr("rec_name", "$(P)SlewRate"),
                    attr("rec_type", "ao"),
                    attr("field", "VAL"),
                ],
            ),
        ],
    };
    let schema = register_type(&decl).unwrap();

    let test_struct = vec![
        Value::Number(format!("{}", 5.5)),
        Value::Number(format!("{}", 0.5)),
        Value::Number(format!("{}", 0.05)),
    ];

    assert_eq!(
        schema.generate(&test_struct).unwrap(),
        r#"record(ao, "$(P)Voltage") {
  field(VAL, "5.5")
}
record(ao, "$(P)Current") {
  field(VAL, "0.5")
}
record(ao, "$(P)SlewRate") {
  field(VAL, "0.05")
}
"#
    );
}

#[test]
fn test_as_record_test_as_record_fmt() {
    let decl = TypeDecl {
        ident: "TestStruct".to_string(),
        attrs: vec![],
        fields: vec![
            field(
                "txt",
                vec![attr(
                    "fmt",
                    r#"record(waveform, "$(P)Label-I") {{ field(INP, "{{const:"{}"}}") }}"#,
                )],
            ),
            field(
                "val",
                vec![attr("fmt", r#"record(ao, "$(P)SomeOut") {{ field(VAL, "{}") }}"#)],
            ),
        ],
    };
    let schema = register_type(&decl).unwrap();

    let test_struct = vec![
        Value::Text("Frac Syn".to_string()),
        Value::Number(format!("{}", 0.5)),
    ];

    println!("test_struct: {}", schema.generate(&test_struct).unwrap());
    assert_eq!(
        schema.generate(&test_struct).unwrap(),
        r#"record(waveform, "$(P)Label-I") { field(INP, "{const:"Frac Syn"}") }
record(ao, "$(P)SomeOut") { field(VAL, "0.5") }
"#
    );
}

#[test]
fn test_as_record_test_as_record_named() {
    let decl = TypeDecl {
        ident: "TestStruct".to_string(),
        attrs: vec![],
        fields: vec![
            field("name", vec![attr("subst", "$(MxcId)")]),
            field(
                "txt",
                vec![attr(
                    "fmt",
                    r#"record(waveform, "$(P)$(MxcId)Label-I") {{ field(INP, "{{const:"{}"}}") }}"#,
                )],
            ),
            field(
                "val",
                vec![attr("fmt", r#"record(ao, "$(P)$(MxcId)SomeOut") {{ field(VAL, "{}") }}"#)],
            ),
        ],
    };
    let schema = register_type(&decl).unwrap();

    let test_struct = vec![
        Value::Variant { name: "Mxc0".to_string(), ordinal: 0 },
        Value::Text("Frac Syn".to_string()),
        Value::Number(format!("{}", 0.5)),
    ];

    assert_eq!(
        schema.generate(&test_struct).unwrap(),
        r#"record(waveform, "$(P)Mxc0Label-I") { field(INP, "{const:"Frac Syn"}") }
record(ao, "$(P)Mxc0SomeOut") { field(VAL, "0.5") }
"#
    );
}
