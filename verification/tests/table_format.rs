use db::database::{Database, FieldDefinition};
use db::dtype::DataTypeKind;
use db::error::Error;
use db::table::{TableId, TableSegment};

fn format_float(kind: DataTypeKind, bytes: &[u8]) -> String {
    match kind {
        DataTypeKind::F32 => format!("{:.6}", f32::from_le_bytes(bytes.try_into().unwrap())),
        DataTypeKind::F64 => format!("{:.6}", f64::from_le_bytes(bytes.try_into().unwrap())),
        _ => unreachable!(),
    }
}

fn small_table() -> Database {
    let mut database = Database::new();
    database
        .create_table(
            "t",
            &[
                FieldDefinition { name: "a", data_type_name: "u8" },
                FieldDefinition { name: "bb", data_type_name: "I32" },
            ],
        )
        .unwrap();
    database
}

#[test]
fn query_all_renders_an_ascii_table() {
    let mut database = small_table();
    let mut bytes = vec![5u8];
    bytes.extend_from_slice(&(-3i32).to_le_bytes());
    bytes.push(200);
    bytes.extend_from_slice(&70000i32.to_le_bytes());
    database.insert("t", &bytes).unwrap();
    let output = database.query_all("t", format_float).unwrap().to_string();
    assert_eq!(
        output,
        "\nTable: t\n+-----+-------+\n| a   | bb    |\n+-----+-------+\n| 5   | -3    |\n| 200 | 70000 |\n+-----+-------+\n"
    );
}

#[test]
fn query_all_of_an_empty_table_has_only_headers() {
    let database = small_table();
    let output = database.query_all("t", format_float).unwrap().to_string();
    assert_eq!(output, "\nTable: t\n+---+----+\n| a | bb |\n+---+----+\n+---+----+\n");
}

#[test]
fn query_all_formats_floats_and_booleans() {
    let mut database = Database::new();
    database
        .create_table(
            "vec3",
            &[
                FieldDefinition { name: "x", data_type_name: "f32" },
                FieldDefinition { name: "ok", data_type_name: "bool" },
            ],
        )
        .unwrap();
    let mut bytes = 1.5f32.to_le_bytes().to_vec();
    bytes.push(1);
    bytes.extend_from_slice(&(-0.25f32).to_le_bytes());
    bytes.push(0);
    database.insert("vec3", &bytes).unwrap();
    let output = database.query_all("vec3", format_float).unwrap().to_string();
    assert!(output.contains("| 1.500000  | true  |"));
    assert!(output.contains("| -0.250000 | false |"));
}

#[test]
fn database_errors() {
    let mut database = small_table();
    let again = database.create_table("t", &[FieldDefinition { name: "c", data_type_name: "u8" }]);
    assert!(matches!(again, Err(Error::TableAlreadyExists { table_name }) if table_name == "t"));
    let unknown = database.create_table("u", &[FieldDefinition { name: "c", data_type_name: "u16" }]);
    assert!(matches!(unknown, Err(Error::UnknownDataType { data_type_name }) if data_type_name == "u16"));
    let missing = database.insert("nope", &[1, 2, 3, 4, 5]);
    assert!(matches!(missing, Err(Error::TableNotFound { table_name }) if table_name == "nope"));
    let ragged = database.insert("t", &[1, 2, 3]);
    assert!(matches!(
        ragged,
        Err(Error::InvalidRowBytes { length_bytes_actual: 3, size_bytes_row: 5 })
    ));
    assert!(matches!(database.query_all("nope", format_float), Err(Error::TableNotFound { .. })));
}

#[test]
fn parse_is_case_insensitive() {
    assert_eq!(DataTypeKind::parse("u64").unwrap(), DataTypeKind::U64);
    assert_eq!(DataTypeKind::parse("I8").unwrap(), DataTypeKind::I8);
    assert_eq!(DataTypeKind::parse("Bool").unwrap(), DataTypeKind::Bool);
    assert!(DataTypeKind::parse("text").is_err());
    assert_eq!(DataTypeKind::F64.byte_width(), 8);
    assert_eq!(DataTypeKind::U32.byte_width(), 4);
}

#[test]
fn format_bytes_renders_integers_and_booleans() {
    assert_eq!(DataTypeKind::U64.format_bytes(&42u64.to_le_bytes()), "42");
    assert_eq!(DataTypeKind::I32.format_bytes(&(-7i32).to_le_bytes()), "-7");
    assert_eq!(DataTypeKind::I8.format_bytes(&[0x80]), "-128");
    assert_eq!(DataTypeKind::U8.format_bytes(&[255]), "255");
    assert_eq!(DataTypeKind::Bool.format_bytes(&[2]), "true");
    assert_eq!(DataTypeKind::Bool.format_bytes(&[0]), "false");
}

#[test]
fn table_ids_count_up() {
    let id = TableId::new(4);
    assert_eq!(id.value(), 4);
    assert_eq!(id.next().value(), 5);
}

#[test]
fn segments_store_columns() {
    let mut segment = TableSegment::new(vec![1, 2]);
    segment.insert_rows(&[1, 2, 3, 4, 5, 6]).unwrap();
    assert_eq!(segment.row_count(), 2);
    assert_eq!(segment.columns()[0].data(), &[1, 4]);
    assert_eq!(segment.columns()[1].data(), &[2, 3, 5, 6]);
    assert!(segment.insert_rows(&[1, 2]).is_err());
}

#[test]
fn core_parse_refuses_the_empty_name() {
    assert!(matches!(
        db::db_core::dtype::DataTypeKind::parse(""),
        Err(db::error::Error::UnknownDataType { .. })
    ));
    assert!(matches!(db::db_core::dtype::DataTypeKind::parse("Bool"), Ok(db::db_core::dtype::DataTypeKind::BOOL)));
}
