use epics_gen::CellValue;
use epics_gen::ElemType;
use epics_gen::FieldProps;
use epics_gen::ParseErrorKind;
use epics_gen::TypeProps;
use epics_gen::Value;

fn test_enum() -> ElemType {
    ElemType::Enumerated(vec!["First".to_string(), "Second".to_string(), "Third".to_string()])
}

fn row_field(ident: &str, elem: ElemType) -> FieldProps {
    let mut f = FieldProps::new(ident.to_string());
    f.elem = elem;
    f
}

#[test]
fn test_from_xlsx_string() {
    let result = test_enum().from_xlsx_data(&CellValue::Text("Third".into()));
    assert!(matches!(result, Ok(Value::Variant { ref name, ordinal: 2 }) if name == "Third"));

    let result = test_enum().from_xlsx_data(&CellValue::Text("ThrowError".into()));
    assert!(matches!(result, Err(k) if k == ParseErrorKind::InvalidValue));

    let result = test_enum().from_xlsx_data(&CellValue::Blank);
    assert!(matches!(result, Err(k) if k == ParseErrorKind::ValueMissing));
}

#[test]
fn test_from_xlsx_float() {
    let result = ElemType::Numeric.from_xlsx_data(&CellValue::Number(format!("{}", 0.1)));
    assert!(matches!(result, Ok(Value::Number(ref t)) if t == "0.1"));

    // A textual cell is no number: the numeric conversion rejects it.
    let result = ElemType::Numeric.from_xlsx_data(&CellValue::Text("ThrowError".into()));
    assert!(matches!(result, Err(k) if k == ParseErrorKind::InvalidValue));

    let result = ElemType::Numeric.from_xlsx_data(&CellValue::Blank);
    assert!(matches!(result, Err(k) if k == ParseErrorKind::ValueMissing));
}

#[test]
fn test_to_primitive() {
    let result = ElemType::Textual.from_xlsx_data(&CellValue::Text("Third".into()));
    assert!(matches!(result, Ok(Value::Text(ref s)) if s == "Third"));

    let result = ElemType::Numeric.from_xlsx_data(&CellValue::Number(format!("{}", 0.1f64)));
    assert!(matches!(result, Ok(Value::Number(ref t)) if *t == format!("{}", 0.1f64)));
}

#[test]
fn test_from_xlsx_row() {
    let schema = TypeProps {
        ident: "BuiltStruct".to_string(),
        type_rec_name: None,
        type_rec_type: None,
        fields: vec![row_field("enm", test_enum()), row_field("flt", ElemType::Numeric)],
    };
    let row: Vec<CellValue> = vec![
        CellValue::Text("Second".into()),
        CellValue::Number(format!("{}", std::f64::consts::PI)),
    ];
    let parsed = schema.from_xlsx_row(&row, 0, "test_table").unwrap();

    assert_eq!(parsed[0][0], Some(Value::Variant { name: "Second".to_string(), ordinal: 1 }));
    assert_eq!(parsed[1][0], Some(Value::Number(format!("{}", std::f64::consts::PI))));
}
