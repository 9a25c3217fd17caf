use db::db_catalog::{Database, DBTable};
use db::db_core::dtype::DataTypeKind;
use db::db_storage::{TablePartition, ZoneMap};
use db::db_types::TableSchema;

fn two_column_schema() -> TableSchema {
    TableSchema::from_fields(&[("a", "U8"), ("b", "U32")])
}

fn row(a: u8, b: u32) -> Vec<u8> {
    let mut bytes = vec![a];
    bytes.extend_from_slice(&b.to_ne_bytes());
    bytes
}

#[test]
fn zone_map_starts_at_zero() {
    let zone_map = ZoneMap::new();
    assert_eq!(zone_map.get_min(), [0u8; 8]);
    assert_eq!(zone_map.get_max(), [0u8; 8]);
    let default = ZoneMap::default();
    assert_eq!(default.get_max(), [0u8; 8]);
}

#[test]
fn zone_map_tracks_unsigned_maximum() {
    let mut zone_map = ZoneMap::new();
    zone_map.update(&7u32.to_ne_bytes(), DataTypeKind::U32);
    zone_map.update(&3u32.to_ne_bytes(), DataTypeKind::U32);
    let max = zone_map.get_max();
    assert_eq!(u32::from_ne_bytes([max[0], max[1], max[2], max[3]]), 7);
    assert_eq!(&max[4..], &[0u8; 4]);
    // The minimum starts at zero and no unsigned value is below it.
    assert_eq!(zone_map.get_min(), [0u8; 8]);
}

#[test]
fn zone_map_tracks_signed_minimum() {
    let mut zone_map = ZoneMap::new();
    zone_map.update(&(-5i64).to_ne_bytes(), DataTypeKind::I64);
    zone_map.update(&(-2i64).to_ne_bytes(), DataTypeKind::I64);
    assert_eq!(i64::from_ne_bytes(zone_map.get_min()), -5);
    assert_eq!(i64::from_ne_bytes(zone_map.get_max()), 0);
    zone_map.update(&(9i8).to_ne_bytes(), DataTypeKind::I8);
    assert_eq!(zone_map.get_max()[0] as i8, 9);
}

#[test]
fn zone_map_orders_floats_by_value() {
    let mut zone_map = ZoneMap::new();
    zone_map.update(&(-1.5f64).to_ne_bytes(), DataTypeKind::F64);
    zone_map.update(&(2.25f64).to_ne_bytes(), DataTypeKind::F64);
    zone_map.update(&f64::NAN.to_ne_bytes(), DataTypeKind::F64);
    assert_eq!(f64::from_ne_bytes(zone_map.get_min()), -1.5);
    assert_eq!(f64::from_ne_bytes(zone_map.get_max()), 2.25);

    let mut single = ZoneMap::new();
    single.update(&(-0.5f32).to_ne_bytes(), DataTypeKind::F32);
    single.update(&(-0.0f32).to_ne_bytes(), DataTypeKind::F32);
    let min = single.get_min();
    assert_eq!(f32::from_ne_bytes([min[0], min[1], min[2], min[3]]), -0.5);
}

#[test]
fn partition_transposes_rows_into_columns() {
    let schema = two_column_schema();
    let mut partition = TablePartition::new(&schema);
    assert_eq!(partition.row_count(), 0);
    let mut bytes = row(1, 10);
    bytes.extend(row(2, 20));
    partition.insert_rows(&schema, &bytes);
    assert_eq!(partition.row_count(), 2);
    assert_eq!(partition.rows_available(), 64 * 2048 - 2);
    let columns = partition.columns();
    assert_eq!(columns.len(), 2);
    assert_eq!(columns[0].data(), &[1, 2]);
    let mut expected = 10u32.to_ne_bytes().to_vec();
    expected.extend_from_slice(&20u32.to_ne_bytes());
    assert_eq!(columns[1].data(), expected.as_slice());
    assert_eq!(columns[1].definition(&schema).name(), "b");
}

#[test]
fn partition_ignores_a_trailing_partial_row() {
    let schema = two_column_schema();
    let mut partition = TablePartition::new(&schema);
    let mut bytes = row(9, 99);
    bytes.push(7);
    partition.insert_rows(&schema, &bytes);
    assert_eq!(partition.row_count(), 1);
    assert_eq!(partition.columns()[0].data(), &[9]);
}

#[test]
fn table_buffers_rows_until_capacity() {
    let mut table = DBTable::new("t".to_string(), 3, two_column_schema());
    assert_eq!(table.name(), "t");
    assert_eq!(table.id(), 3);
    table.insert(&row(1, 1));
    assert_eq!(table.table_partitions().len(), 1);
    assert_eq!(table.table_partitions()[0].row_count(), 0);
    table.flush_write_buffer();
    assert_eq!(table.table_partitions()[0].row_count(), 1);
    assert_eq!(table.table_partitions()[0].columns()[0].data(), &[1]);
}

#[test]
fn table_flushes_a_full_buffer() {
    let mut table = DBTable::new("t".to_string(), 0, two_column_schema());
    let mut bytes = Vec::new();
    for index in 0..4096u32 {
        bytes.extend(row((index % 256) as u8, index));
    }
    table.insert(&bytes);
    assert_eq!(table.table_partitions()[0].row_count(), 4096);
    assert_eq!(table.schema().row_size_bytes(), 5);
}

#[test]
fn table_opens_a_new_partition_when_full() {
    let mut table = DBTable::new("t".to_string(), 0, TableSchema::from_fields(&[("a", "U8")]));
    let bytes = vec![1u8; 64 * 2048 + 10];
    table.insert(&bytes);
    table.flush_write_buffer();
    let partitions = table.table_partitions();
    assert_eq!(partitions.len(), 2);
    assert_eq!(partitions[0].row_count(), 64 * 2048);
    assert_eq!(partitions[1].row_count(), 10);
}

#[test]
fn catalog_numbers_tables_and_finds_them() {
    let mut database = Database::new();
    database.create_table("first", &[("a", "U8")]);
    database.create_table("second", &[("x", "I64"), ("y", "bool")]);
    assert!(database.get_table("third").is_none());
    let second = database.get_table("second").unwrap();
    assert_eq!(second.id(), 1);
    assert_eq!(second.schema().column_count(), 2);
    assert_eq!(second.schema().columns()[1].data_type(), DataTypeKind::BOOL);
    assert_eq!(second.schema().row_size_bytes(), 9);
    database.insert("first", &[4, 5, 6]);
    let first = database.get_table("first").unwrap();
    assert_eq!(first.id(), 0);
    assert_eq!(first.table_partitions()[0].row_count(), 0);
}

fn float_text(kind: DataTypeKind, bytes: &[u8]) -> String {
    match kind {
        DataTypeKind::F32 => format!("{:.6}", f32::from_le_bytes([bytes[0], bytes[1], bytes[2], bytes[3]])),
        _ => {
            let mut raw = [0u8; 8];
            raw.copy_from_slice(bytes);
            format!("{:.6}", f64::from_le_bytes(raw))
        }
    }
}

#[test]
fn catalog_prints_flushed_rows_in_insertion_order() {
    let mut database = Database::new();
    database.create_table("points", &[("id", "U32"), ("ok", "BOOL"), ("w", "F32")]);
    let mut bytes = Vec::new();
    bytes.extend(7u32.to_le_bytes());
    bytes.push(1);
    bytes.extend(1.5f32.to_le_bytes());
    bytes.extend(123456u32.to_le_bytes());
    bytes.push(0);
    bytes.extend((-2.0f32).to_le_bytes());
    database.insert("points", &bytes);
    let printed = database.print_table("points", float_text).to_string();
    let expected = "\nTable: points\n\
+--------+-------+-----------+\n\
| id     | ok    | w         |\n\
+--------+-------+-----------+\n\
| 7      | true  | 1.500000  |\n\
| 123456 | false | -2.000000 |\n\
+--------+-------+-----------+\n";
    assert_eq!(printed, expected);
    let table = database.get_table("points").unwrap();
    assert_eq!(table.table_partitions()[0].row_count(), 2);
}

#[test]
fn catalog_prints_an_empty_table_with_headers_only() {
    let mut database = Database::new();
    database.create_table("empty", &[("value", "I8")]);
    let printed = database.print_table("empty", float_text).to_string();
    assert_eq!(printed, "\nTable: empty\n+-------+\n| value |\n+-------+\n+-------+\n");
}

#[test]
fn table_format_renders_signed_values() {
    let mut table = DBTable::new("s".to_string(), 0, TableSchema::from_fields(&[("n", "I8"), ("m", "I64")]));
    let mut bytes = vec![0xffu8];
    bytes.extend((-42i64).to_le_bytes());
    table.insert(&bytes);
    table.flush_write_buffer();
    let printed = db::db_core::table_format::OutputTable::from_table(&table, float_text).to_string();
    assert_eq!(printed, "\nTable: s\n+----+-----+\n| n  | m   |\n+----+-----+\n| -1 | -42 |\n+----+-----+\n");
}

#[test]
fn printed_table_lines_are_aligned() {
    let mut database = Database::new();
    database.create_table("wide", &[("a_long_header", "U64"), ("b", "I32")]);
    let mut bytes = Vec::new();
    bytes.extend(u64::MAX.to_le_bytes());
    bytes.extend(i32::MIN.to_le_bytes());
    bytes.extend(3u64.to_le_bytes());
    bytes.extend(4i32.to_le_bytes());
    database.insert("wide", &bytes);
    let printed = database.print_table("wide", float_text).to_string();
    let lines: Vec<&str> = printed.lines().skip(2).collect();
    assert_eq!(lines.len(), 6);
    for line in &lines {
        assert_eq!(line.len(), lines[0].len());
    }
    assert_eq!(lines[3], "| 18446744073709551615 | -2147483648 |");
}

#[test]
fn try_create_table_checks_names_and_types() {
    let mut database = Database::new();
    assert!(database.try_create_table("t", &[("a", "u8"), ("b", "f64")]).is_ok());
    assert!(matches!(
        database.try_create_table("t", &[("a", "u8")]),
        Err(db::error::Error::TableAlreadyExists { table_name }) if table_name == "t"
    ));
    assert!(matches!(
        database.try_create_table("u", &[("a", "u8"), ("b", "u16"), ("c", "")]),
        Err(db::error::Error::UnknownDataType { data_type_name }) if data_type_name == "u16"
    ));
    assert!(matches!(
        database.try_create_table("u", &[("a", "")]),
        Err(db::error::Error::UnknownDataType { data_type_name }) if data_type_name.is_empty()
    ));
    assert!(database.get_table("u").is_none());
    assert!(database.try_create_table("u", &[("x", "I32")]).is_ok());
    assert_eq!(database.get_table("u").unwrap().id(), 1);
}

#[test]
fn insert_buffers_until_capacity_and_flush_is_idempotent() {
    let mut table = DBTable::new("t".to_string(), 0, TableSchema::from_fields(&[("a", "U8")]));
    table.insert(&vec![7u8; 4095]);
    assert_eq!(table.table_partitions()[0].row_count(), 0);
    table.insert(&[8u8]);
    assert_eq!(table.table_partitions()[0].row_count(), 4096);
    table.flush_write_buffer();
    table.flush_write_buffer();
    assert_eq!(table.table_partitions().len(), 1);
    let data = table.table_partitions()[0].columns()[0].data();
    assert_eq!(data.len(), 4096);
    assert_eq!(data[4095], 8);
}

#[test]
fn core_getters_name_partitions_and_definitions() {
    let mut table = DBTable::new("t".to_string(), 0, TableSchema::from_fields(&[("a", "U8"), ("b", "U32")]));
    table.insert(&[1, 2, 0, 0, 0]);
    table.flush_write_buffer();
    assert_eq!(table.row_groups().len(), 1);
    assert_eq!(table.row_groups()[0].row_count(), 1);
    let schema = table.schema();
    let segment = &table.row_groups()[0].columns()[1];
    assert_eq!(segment.def(schema).data_type(), DataTypeKind::U32);
    assert_eq!(segment.data(), &[2, 0, 0, 0]);
}
