use db::db_core::dtype::DataTypeKind;
use db::db_execution::{execute, physical_plan, QueryResult, ResultColumn};
use db::db_optimizer::{build_plan, optimize, plan};
use db::db_types::plan::{
    AggregateFunction, LogicalPlan as PlanTree, ResolvedAggregate, ResolvedAggregateFunction, ResolvedColumn,
    ResolvedExpr, ResolvedPlan, ResolvedSelectItem, ResolvedTable,
};
use db::db_types::{LogicalPlan, PhysicalPlan};

fn column(name: &str, index: usize, data_type: DataTypeKind) -> ResolvedColumn {
    ResolvedColumn { name: name.to_string(), index, data_type }
}

fn trips() -> ResolvedTable {
    ResolvedTable {
        id: 7,
        name: "trips".to_string(),
        columns: vec![
            column("cab_type", 0, DataTypeKind::U8),
            column("passenger_count", 1, DataTypeKind::U8),
            column("total_amount", 2, DataTypeKind::F64),
        ],
    }
}

#[test]
fn plans_grouped_average() {
    let resolved = ResolvedPlan::Select {
        projection: vec![
            ResolvedSelectItem {
                expr: ResolvedExpr::Column(column("passenger_count", 1, DataTypeKind::U8)),
                alias: None,
            },
            ResolvedSelectItem {
                expr: ResolvedExpr::Aggregate(ResolvedAggregate {
                    function: ResolvedAggregateFunction::Avg {
                        column: column("total_amount", 2, DataTypeKind::F64),
                    },
                    data_type: DataTypeKind::F64,
                }),
                alias: Some("mean".to_string()),
            },
        ],
        from: trips(),
        group_by: vec![ResolvedExpr::Column(column("passenger_count", 1, DataTypeKind::U8))],
    };
    let tree = build_plan(resolved);
    let PlanTree::Projection { expressions, input } = &tree else { panic!("expected a projection") };
    assert_eq!(expressions.len(), 2);
    assert_eq!(expressions[0].input.index, 0);
    assert_eq!(expressions[1].input.index, 1);
    let PlanTree::Aggregate { group_keys, aggregates, input } = input.as_ref() else { panic!("expected an aggregate") };
    assert_eq!(group_keys.len(), 1);
    assert_eq!(group_keys[0].index, 0);
    assert!(matches!(aggregates[0].function, AggregateFunction::Avg { input } if input.index == 1));
    let PlanTree::TableScan { table_id, table_name, columns } = input.as_ref() else { panic!("expected a scan") };
    assert_eq!(*table_id, 7);
    assert_eq!(table_name, "trips");
    let indices: Vec<usize> = columns.iter().map(|c| c.table_index).collect();
    assert_eq!(indices, vec![1, 2]);

    let output = tree.output_columns();
    assert_eq!(output.len(), 2);
    assert_eq!(output[0].name, "passenger_count");
    assert_eq!(output[0].data_type, DataTypeKind::U8);
    assert_eq!(output[1].name, "mean");
    assert_eq!(output[1].data_type, DataTypeKind::F64);
}

#[test]
fn plans_count_star_with_default_name() {
    let resolved = ResolvedPlan::Select {
        projection: vec![
            ResolvedSelectItem {
                expr: ResolvedExpr::Column(column("cab_type", 0, DataTypeKind::U8)),
                alias: None,
            },
            ResolvedSelectItem {
                expr: ResolvedExpr::Aggregate(ResolvedAggregate {
                    function: ResolvedAggregateFunction::CountStar,
                    data_type: DataTypeKind::U64,
                }),
                alias: None,
            },
        ],
        from: trips(),
        group_by: vec![ResolvedExpr::Column(column("cab_type", 0, DataTypeKind::U8))],
    };
    let output = build_plan(resolved).output_columns();
    assert_eq!(output[0].name, "cab_type");
    assert_eq!(output[1].name, "count");
    assert_eq!(output[1].data_type, DataTypeKind::U64);
}

#[test]
fn plans_plain_projection_over_sorted_scan() {
    let resolved = ResolvedPlan::Select {
        projection: vec![
            ResolvedSelectItem { expr: ResolvedExpr::Column(column("total_amount", 2, DataTypeKind::F64)), alias: None },
            ResolvedSelectItem { expr: ResolvedExpr::Column(column("cab_type", 0, DataTypeKind::U8)), alias: None },
            ResolvedSelectItem {
                expr: ResolvedExpr::Column(column("total_amount", 2, DataTypeKind::F64)),
                alias: Some("again".to_string()),
            },
        ],
        from: trips(),
        group_by: Vec::new(),
    };
    let tree = build_plan(resolved);
    let PlanTree::Projection { expressions, input } = &tree else { panic!("expected a projection") };
    let PlanTree::TableScan { columns, .. } = input.as_ref() else { panic!("expected a scan") };
    let indices: Vec<usize> = columns.iter().map(|c| c.table_index).collect();
    assert_eq!(indices, vec![0, 2]);
    let inputs: Vec<usize> = expressions.iter().map(|e| e.input.index).collect();
    assert_eq!(inputs, vec![1, 0, 1]);
    let names: Vec<String> = tree.output_columns().into_iter().map(|c| c.name).collect();
    assert_eq!(names, vec!["total_amount", "cab_type", "again"]);
}

#[test]
fn physical_planning_passes_scans_through() {
    let logical = LogicalPlan::Scan { table_name: "trips".to_string(), column_indices: vec![2, 0] };
    let PhysicalPlan::TableScan { table_name, column_indices } = plan(&logical);
    assert_eq!(table_name, "trips");
    assert_eq!(column_indices, vec![2, 0]);

    let LogicalPlan::Scan { table_name, column_indices } = optimize(logical);
    assert!(table_name.is_empty() && column_indices.is_empty());
    let PhysicalPlan::TableScan { table_name, column_indices } =
        physical_plan(LogicalPlan::Scan { table_name: "x".to_string(), column_indices: vec![1] });
    assert!(table_name.is_empty() && column_indices.is_empty());
}

#[test]
fn execution_is_empty_for_now() {
    let database = db::db_catalog::Database::new();
    let result = execute(PhysicalPlan::default(), &database);
    assert_eq!(result.row_count(), 0);
    assert!(result.columns().is_empty());
}

#[test]
fn result_columns_read_rows_across_chunks() {
    let first = [1u8, 0, 2, 0];
    let second = [3u8, 0];
    let mut column = ResultColumn::new("n".to_string(), DataTypeKind::I32);
    assert_eq!(column.byte_width(), 4);
    let mut column16 = ResultColumn::new("m".to_string(), DataTypeKind::U8);
    column16.push_chunk(&first, 4);
    column16.push_chunk(&second, 0);
    column16.push_chunk(&second, 2);
    assert_eq!(column16.chunks().len(), 2);
    assert_eq!(column16.row_bytes(0), &[1]);
    assert_eq!(column16.row_bytes(3), &[0]);
    assert_eq!(column16.row_bytes(4), &[3]);
    assert_eq!(column16.row_bytes(5), &[0]);
    assert_eq!(column16.chunks()[1].row_count(), 2);
    assert_eq!(column16.chunks()[1].data(), &second);
    let eight = [1u8, 2, 3, 4, 5, 6, 7, 8];
    column.push_chunk(&eight, 2);
    assert_eq!(column.row_bytes(1), &[5, 6, 7, 8]);
    assert_eq!(column.name(), "n");
    assert_eq!(column.data_type(), DataTypeKind::I32);
    let result = QueryResult::new(vec![column, column16], 6);
    assert_eq!(result.columns().len(), 2);
    assert_eq!(result.row_count(), 6);
}
