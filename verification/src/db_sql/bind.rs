//! Binding: resolving the table, column and function names of an unresolved
//! `SELECT` against the catalog, and checking its grouping.
use vstd::prelude::*;

use crate::db_catalog::Database;
use crate::db_core::dtype::DataTypeKind;
use crate::db_types::plan::{
    ResolvedAggregate, ResolvedAggregateFunction, ResolvedColumn, ResolvedExpr, ResolvedPlan, ResolvedSelectItem,
    ResolvedTable, UnresolvedExpr, UnresolvedFunctionArgs, UnresolvedPlan, UnresolvedSelectItem,
};
use crate::db_optimizer::build_plan::{
    spec_columns_below, spec_expr_indices, spec_grouped_by, spec_has_aggregate, spec_is_aggregate, spec_needs_aggregate,
    spec_plannable,
};
use crate::db_types::TableSchema;

verus! {

/// Why a plan cannot be bound.
#[derive(Debug)]
pub enum BindError {
    /// No table of that name in the catalog.
    TableNotFound { table_name: String },
    /// The table's schema names two columns alike.
    DuplicateColumnName { column_name: String },
    /// No column of that name in the table.
    ColumnNotFound { table_name: String, column_name: String },
    /// A function other than `count` and `avg`.
    UnsupportedFunction { name: String },
    /// `avg(*)`.
    AvgStar,
    /// `avg` with other than one argument.
    AvgArity { count: usize },
    /// `avg` of a non-numeric column.
    AvgNonNumeric { data_type: DataTypeKind },
    /// `count` with other than one argument.
    CountArity { count: usize },
    /// A function call as an aggregate's argument.
    NestedFunction,
    /// An aggregate in `GROUP BY`.
    AggregateInGroupBy,
    /// A plain projection item that is not grouped by.
    NotInGroupBy,
}

/// `BindError` with names as character sequences.
pub enum BindFailure {
    TableNotFound(Seq<char>),
    DuplicateColumnName(Seq<char>),
    ColumnNotFound(Seq<char>, Seq<char>),
    UnsupportedFunction(Seq<char>),
    AvgStar,
    AvgArity(nat),
    AvgNonNumeric(DataTypeKind),
    CountArity(nat),
    NestedFunction,
    AggregateInGroupBy,
    NotInGroupBy,
}

impl BindError {
    /// The failure this error reports.
    pub open spec fn spec_failure(&self) -> BindFailure {
        match self {
            BindError::TableNotFound { table_name } => BindFailure::TableNotFound(table_name@),
            BindError::DuplicateColumnName { column_name } => BindFailure::DuplicateColumnName(column_name@),
            BindError::ColumnNotFound { table_name, column_name } => BindFailure::ColumnNotFound(
                table_name@,
                column_name@,
            ),
            BindError::UnsupportedFunction { name } => BindFailure::UnsupportedFunction(name@),
            BindError::AvgStar => BindFailure::AvgStar,
            BindError::AvgArity { count } => BindFailure::AvgArity(*count as nat),
            BindError::AvgNonNumeric { data_type } => BindFailure::AvgNonNumeric(*data_type),
            BindError::CountArity { count } => BindFailure::CountArity(*count as nat),
            BindError::NestedFunction => BindFailure::NestedFunction,
            BindError::AggregateInGroupBy => BindFailure::AggregateInGroupBy,
            BindError::NotInGroupBy => BindFailure::NotInGroupBy,
        }
    }
}

/// What a bound expression is, by column position in the table.
pub enum ExprShape {
    Column(int),
    CountStar,
    Count(int),
    Avg(int),
}

/// Whether values of `data_type` are numbers.
pub open spec fn spec_is_numeric(data_type: DataTypeKind) -> bool {
    !(data_type is BOOL)
}

/// Names and types of a table's columns, in order.
pub type ColumnList = Seq<(Seq<char>, DataTypeKind)>;

/// Names and types of a resolved table's columns.
pub open spec fn spec_columns_of(table: ResolvedTable) -> ColumnList {
    table.columns@.map_values(|c: ResolvedColumn| (c.name@, c.data_type))
}

/// The column list of a resolved table lists its columns' names and types.
proof fn lemma_columns_of(table: ResolvedTable)
    ensures
        spec_columns_of(table).len() == table.columns@.len(),
        forall|i: int|
            0 <= i < table.columns@.len() ==> #[trigger] spec_columns_of(table)[i] == (
                table.columns@[i].name@,
                table.columns@[i].data_type,
            ),
{
}

/// Position of the first column named `name`.
pub open spec fn spec_column_position(columns: ColumnList, name: Seq<char>) -> Option<int> {
    if exists|i: int| 0 <= i < columns.len() && #[trigger] columns[i].0 == name {
        Some(
            choose|i: int|
                0 <= i < columns.len() && #[trigger] columns[i].0 == name && forall|j: int|
                    0 <= j < i ==> columns[j].0 != name,
        )
    } else {
        None
    }
}

/// `column` is a copy of column `i` of `table`.
pub open spec fn spec_is_column(table: ResolvedTable, column: ResolvedColumn, i: int) -> bool {
    &&& 0 <= i < table.columns@.len()
    &&& column.name@ == table.columns@[i].name@
    &&& column.index == table.columns@[i].index
    &&& column.data_type == table.columns@[i].data_type
}

/// The column that an aggregate's argument names.
pub open spec fn spec_bind_column(expression: UnresolvedExpr, table: Seq<char>, columns: ColumnList) -> Result<int, BindFailure> {
    match expression {
        UnresolvedExpr::Column(name) => match spec_column_position(columns, name@) {
            Some(i) => Ok(i),
            None => Err(BindFailure::ColumnNotFound(table, name@)),
        },
        UnresolvedExpr::Function { .. } => Err(BindFailure::NestedFunction),
    }
}

/// `count` spelled out.
pub open spec fn spec_count_name() -> Seq<char> {
    seq!['c', 'o', 'u', 'n', 't']
}

/// `avg` spelled out.
pub open spec fn spec_avg_name() -> Seq<char> {
    seq!['a', 'v', 'g']
}

/// What binding `expression` against the table named `table` with
/// `columns` gives.
pub open spec fn spec_bind_expr(expression: UnresolvedExpr, table: Seq<char>, columns: ColumnList) -> Result<ExprShape, BindFailure> {
    match expression {
        UnresolvedExpr::Column(name) => match spec_column_position(columns, name@) {
            Some(i) => Ok(ExprShape::Column(i)),
            None => Err(BindFailure::ColumnNotFound(table, name@)),
        },
        UnresolvedExpr::Function { name, args } => if name@ == spec_count_name() {
            match args {
                UnresolvedFunctionArgs::Star => Ok(ExprShape::CountStar),
                UnresolvedFunctionArgs::Exprs(arguments) => if arguments@.len() != 1 {
                    Err(BindFailure::CountArity(arguments@.len()))
                } else {
                    match spec_bind_column(arguments@[0], table, columns) {
                        Ok(i) => Ok(ExprShape::Count(i)),
                        Err(failure) => Err(failure),
                    }
                },
            }
        } else if name@ == spec_avg_name() {
            match args {
                UnresolvedFunctionArgs::Star => Err(BindFailure::AvgStar),
                UnresolvedFunctionArgs::Exprs(arguments) => if arguments@.len() != 1 {
                    Err(BindFailure::AvgArity(arguments@.len()))
                } else {
                    match spec_bind_column(arguments@[0], table, columns) {
                        Ok(i) => if spec_is_numeric(columns[i].1) {
                            Ok(ExprShape::Avg(i))
                        } else {
                            Err(BindFailure::AvgNonNumeric(columns[i].1))
                        },
                        Err(failure) => Err(failure),
                    }
                },
            }
        } else {
            Err(BindFailure::UnsupportedFunction(name@))
        },
    }
}

/// `expression` is what `shape` describes over `table`.
pub open spec fn spec_has_shape(expression: ResolvedExpr, shape: ExprShape, table: ResolvedTable) -> bool {
    match shape {
        ExprShape::Column(i) => expression matches ResolvedExpr::Column(c) && spec_is_column(table, c, i),
        ExprShape::CountStar => expression matches ResolvedExpr::Aggregate(a) && a.function is CountStar
            && a.data_type == DataTypeKind::U64,
        ExprShape::Count(i) => expression matches ResolvedExpr::Aggregate(a) && a.data_type == DataTypeKind::U64
            && (a.function matches ResolvedAggregateFunction::Count { column } && spec_is_column(table, column, i)),
        ExprShape::Avg(i) => expression matches ResolvedExpr::Aggregate(a) && a.data_type == DataTypeKind::F64
            && (a.function matches ResolvedAggregateFunction::Avg { column } && spec_is_column(table, column, i)),
    }
}

/// Averaging binds over a column of every integer and every float type, as
/// an average of that column; only a boolean column is refused, with its
/// type named.
pub proof fn lemma_avg_binds_exactly_non_bool_columns(
    expression: UnresolvedExpr,
    table: Seq<char>,
    columns: ColumnList,
    i: int,
)
    requires
        expression is Function,
        expression->name@ == spec_avg_name(),
        expression->args is Exprs,
        expression->args->0@.len() == 1,
        expression->args->0@[0] is Column,
        spec_column_position(columns, expression->args->0@[0]->0@) == Some(i),
    ensures
        0 <= i < columns.len(),
        match columns[i].1 {
            DataTypeKind::U64 | DataTypeKind::U32 | DataTypeKind::U8 | DataTypeKind::I64 | DataTypeKind::I32
            | DataTypeKind::I8 | DataTypeKind::F32 | DataTypeKind::F64 => spec_bind_expr(expression, table, columns)
                == Ok::<ExprShape, BindFailure>(ExprShape::Avg(i)),
            DataTypeKind::BOOL => spec_bind_expr(expression, table, columns) == Err::<ExprShape, BindFailure>(
                BindFailure::AvgNonNumeric(DataTypeKind::BOOL),
            ),
        },
{
    let name = expression->args->0@[0]->0@;
    let k = choose|k: int| 0 <= k < columns.len() && #[trigger] columns[k].0 == name;
    lemma_first_match(columns, name, k);
}

/// Counting binds over a column of any type, booleans included, as a count
/// of that column, and `count(*)` as a count of rows; `avg(*)` is refused.
pub proof fn lemma_count_binds_every_column(
    expression: UnresolvedExpr,
    table: Seq<char>,
    columns: ColumnList,
    i: int,
)
    requires
        expression is Function,
    ensures
        (expression->name@ == spec_count_name() && expression->args is Star) ==> spec_bind_expr(
            expression,
            table,
            columns,
        ) == Ok::<ExprShape, BindFailure>(ExprShape::CountStar),
        (expression->name@ == spec_avg_name() && expression->args is Star) ==> spec_bind_expr(
            expression,
            table,
            columns,
        ) == Err::<ExprShape, BindFailure>(BindFailure::AvgStar),
        (expression->name@ == spec_count_name() && expression->args is Exprs && expression->args->0@.len() == 1
            && expression->args->0@[0] is Column && spec_column_position(columns, expression->args->0@[0]->0@)
            == Some(i)) ==> spec_bind_expr(expression, table, columns) == Ok::<ExprShape, BindFailure>(
            ExprShape::Count(i),
        ),
{
    assert(spec_count_name() != spec_avg_name());
}

/// A column named `name` at `k` has a first such column at or before it.
proof fn lemma_first_match(columns: ColumnList, name: Seq<char>, k: int)
    requires
        0 <= k < columns.len(),
        columns[k].0 == name,
    ensures
        exists|i: int|
            0 <= i <= k && #[trigger] columns[i].0 == name && forall|j: int| 0 <= j < i ==> columns[j].0 != name,
    decreases k,
{
    if exists|j: int| 0 <= j < k && #[trigger] columns[j].0 == name {
        let j = choose|j: int| 0 <= j < k && #[trigger] columns[j].0 == name;
        lemma_first_match(columns, name, j);
    } else {
        assert(forall|j: int| 0 <= j < k ==> columns[j].0 != name);
    }
}

/// What binding the projection items gives: their shapes in order, or the
/// first item's failure.
pub open spec fn spec_bind_items(items: Seq<UnresolvedSelectItem>, table: Seq<char>, columns: ColumnList) -> Result<
    Seq<ExprShape>,
    BindFailure,
>
    decreases items.len(),
{
    if items.len() == 0 {
        Ok(Seq::empty())
    } else {
        match spec_bind_items(items.drop_last(), table, columns) {
            Err(failure) => Err(failure),
            Ok(shapes) => match spec_bind_expr(items.last().expr, table, columns) {
                Ok(shape) => Ok(shapes.push(shape)),
                Err(failure) => Err(failure),
            },
        }
    }
}

/// What binding the grouping expressions gives: their shapes in order, or
/// the first failure; an aggregate there fails.
pub open spec fn spec_bind_groups(expressions: Seq<UnresolvedExpr>, table: Seq<char>, columns: ColumnList) -> Result<
    Seq<ExprShape>,
    BindFailure,
>
    decreases expressions.len(),
{
    if expressions.len() == 0 {
        Ok(Seq::empty())
    } else {
        match spec_bind_groups(expressions.drop_last(), table, columns) {
            Err(failure) => Err(failure),
            Ok(shapes) => match spec_bind_expr(expressions.last(), table, columns) {
                Ok(ExprShape::Column(i)) => Ok(shapes.push(ExprShape::Column(i))),
                Ok(_) => Err(BindFailure::AggregateInGroupBy),
                Err(failure) => Err(failure),
            },
        }
    }
}

/// Whether a projection that aggregates or groups leaves some plain column
/// out of the grouping.
pub open spec fn spec_grouping_violated(items: Seq<ExprShape>, groups: Seq<ExprShape>) -> bool {
    let aggregates = exists|i: int| 0 <= i < items.len() && !(#[trigger] items[i] is Column);
    (aggregates || groups.len() > 0) && exists|i: int|
        0 <= i < items.len() && #[trigger] items[i] is Column && !groups.contains(items[i])
}

/// A resolved table as binding builds it: columns numbered by position with
/// distinct names.
pub open spec fn spec_table_wf(table: ResolvedTable) -> bool {
    &&& forall|i: int| 0 <= i < table.columns@.len() ==> (#[trigger] table.columns@[i]).index == i
    &&& forall|i: int, j: int|
        0 <= i < j < table.columns@.len() ==> #[trigger] table.columns@[i].name@ != #[trigger] table.columns@[j].name@
}

/// Position of the first column of `schema` whose name an earlier column
/// already has.
pub open spec fn spec_first_duplicate(schema: TableSchema) -> Option<int> {
    let columns = schema.spec_columns();
    if exists|j: int| 0 <= j < columns.len() && exists|i: int| 0 <= i < j && #[trigger] columns[i].spec_name() == #[trigger] columns[j].spec_name() {
        Some(
            choose|j: int|
                0 <= j < columns.len() && (exists|i: int| 0 <= i < j && #[trigger] columns[i].spec_name() == #[trigger] columns[j].spec_name())
                    && forall|k: int, i: int| 0 <= i < k < j ==> #[trigger] columns[i].spec_name() != #[trigger] columns[k].spec_name(),
        )
    } else {
        None
    }
}

/// `table` resolves the catalog table `source`: same id and name, and one
/// column per schema column with its name, position and type.
pub open spec fn spec_resolves(table: ResolvedTable, source: crate::db_catalog::DBTable) -> bool {
    let columns = source.spec_schema().spec_columns();
    &&& table.id == source.spec_id()
    &&& table.name@ == source.spec_name()
    &&& table.columns@.len() == columns.len()
    &&& forall|i: int|
        0 <= i < columns.len() ==> {
            &&& (#[trigger] table.columns@[i]).name@ == columns[i].spec_name()
            &&& table.columns@[i].index == i
            &&& table.columns@[i].data_type == columns[i].spec_data_type()
        }
}

/// Whether `data_type` is numeric.
fn is_numeric_type(data_type: DataTypeKind) -> (numeric: bool)
    ensures
        numeric == spec_is_numeric(data_type),
{
    match data_type {
        DataTypeKind::U64 | DataTypeKind::U32 | DataTypeKind::U8 | DataTypeKind::I64 | DataTypeKind::I32
        | DataTypeKind::I8 | DataTypeKind::F32 | DataTypeKind::F64 => true,
        DataTypeKind::BOOL => false,
    }
}

/// Whether `expression` is an aggregate.
fn is_aggregate(expression: &ResolvedExpr) -> (aggregate: bool)
    ensures
        aggregate == (*expression is Aggregate),
{
    match expression {
        ResolvedExpr::Aggregate(_) => true,
        ResolvedExpr::Column(_) => false,
    }
}

/// A copy of a resolved column.
fn copy_column(column: &ResolvedColumn) -> (copy: ResolvedColumn)
    ensures
        copy.name@ == column.name@,
        copy.index == column.index,
        copy.data_type == column.data_type,
{
    ResolvedColumn { name: column.name.clone(), index: column.index, data_type: column.data_type }
}

/// The column of `table` named `column_name`.
fn resolve_column(column_name: &str, table: &ResolvedTable) -> (result: Result<ResolvedColumn, BindError>)
    ensures
        match spec_column_position(spec_columns_of(*table), column_name@) {
            Some(i) => result matches Ok(column) && spec_is_column(*table, column, i),
            None => result matches Err(error) && error.spec_failure() == BindFailure::ColumnNotFound(
                table.name@,
                column_name@,
            ),
        },
{
    proof {
        lemma_columns_of(*table);
    }
    let wanted = column_name.to_owned();
    let mut i: usize = 0;
    while i < table.columns.len()
        invariant
            wanted@ == column_name@,
            i <= table.columns@.len(),
            forall|j: int| 0 <= j < i ==> #[trigger] table.columns@[j].name@ != column_name@,
        decreases table.columns@.len() - i,
    {
        if table.columns[i].name == wanted {
            let column = copy_column(&table.columns[i]);
            proof {
                lemma_columns_of(*table);
                assert(table.columns@[i as int].name@ == column_name@);
                assert(spec_columns_of(*table)[i as int].0 == column_name@);
                let p = spec_column_position(spec_columns_of(*table), column_name@).unwrap();
                assert(p == i);
            }
            return Ok(column);
        }
        i = i + 1;
    }
    Err(BindError::ColumnNotFound { table_name: table.name.clone(), column_name: wanted })
}

/// The column an aggregate's argument names; a function call there fails.
fn bind_to_column(expression: UnresolvedExpr, table: &ResolvedTable) -> (result: Result<ResolvedColumn, BindError>)
    ensures
        match spec_bind_column(expression, table.name@, spec_columns_of(*table)) {
            Ok(i) => result matches Ok(column) && spec_is_column(*table, column, i),
            Err(failure) => result matches Err(error) && error.spec_failure() == failure,
        },
{
    match expression {
        UnresolvedExpr::Column(name) => resolve_column(name.as_str(), table),
        UnresolvedExpr::Function { .. } => Err(BindError::NestedFunction),
    }
}

/// The single argument of an aggregate.
fn single_argument(arguments: Vec<UnresolvedExpr>) -> (argument: UnresolvedExpr)
    requires
        arguments@.len() == 1,
    ensures
        argument == arguments@[0],
{
    let mut arguments = arguments;
    match arguments.pop() {
        Some(argument) => argument,
        None => {
            proof {
                assert(false);
            }
            UnresolvedExpr::Column(String::new())
        },
    }
}

/// `count(*)` or `count(col)`.
fn bind_count(arguments: UnresolvedFunctionArgs, table: &ResolvedTable) -> (result: Result<ResolvedExpr, BindError>)
    ensures
        match arguments {
            UnresolvedFunctionArgs::Star => result matches Ok(e) && spec_has_shape(e, ExprShape::CountStar, *table),
            UnresolvedFunctionArgs::Exprs(args) => if args@.len() != 1 {
                result matches Err(error) && error.spec_failure() == BindFailure::CountArity(args@.len())
            } else {
                match spec_bind_column(args@[0], table.name@, spec_columns_of(*table)) {
                    Ok(i) => result matches Ok(e) && spec_has_shape(e, ExprShape::Count(i), *table),
                    Err(failure) => result matches Err(error) && error.spec_failure() == failure,
                }
            },
        },
{
    match arguments {
        UnresolvedFunctionArgs::Star => Ok(
            ResolvedExpr::Aggregate(
                ResolvedAggregate { function: ResolvedAggregateFunction::CountStar, data_type: DataTypeKind::U64 },
            ),
        ),
        UnresolvedFunctionArgs::Exprs(arguments) => {
            if arguments.len() != 1 {
                Err(BindError::CountArity { count: arguments.len() })
            } else {
                match bind_to_column(single_argument(arguments), table) {
                    Ok(column) => Ok(
                        ResolvedExpr::Aggregate(
                            ResolvedAggregate {
                                function: ResolvedAggregateFunction::Count { column },
                                data_type: DataTypeKind::U64,
                            },
                        ),
                    ),
                    Err(error) => Err(error),
                }
            }
        },
    }
}

/// `avg(col)` of a numeric column.
fn bind_avg(arguments: UnresolvedFunctionArgs, table: &ResolvedTable) -> (result: Result<ResolvedExpr, BindError>)
    ensures
        match arguments {
            UnresolvedFunctionArgs::Star => result matches Err(error) && error.spec_failure() == BindFailure::AvgStar,
            UnresolvedFunctionArgs::Exprs(args) => if args@.len() != 1 {
                result matches Err(error) && error.spec_failure() == BindFailure::AvgArity(args@.len())
            } else {
                match spec_bind_column(args@[0], table.name@, spec_columns_of(*table)) {
                    Ok(i) => if spec_is_numeric(spec_columns_of(*table)[i].1) {
                        result matches Ok(e) && spec_has_shape(e, ExprShape::Avg(i), *table)
                    } else {
                        result matches Err(error) && error.spec_failure() == BindFailure::AvgNonNumeric(
                            spec_columns_of(*table)[i].1,
                        )
                    },
                    Err(failure) => result matches Err(error) && error.spec_failure() == failure,
                }
            },
        },
{
    proof {
        lemma_columns_of(*table);
    }
    match arguments {
        UnresolvedFunctionArgs::Star => Err(BindError::AvgStar),
        UnresolvedFunctionArgs::Exprs(arguments) => {
            if arguments.len() != 1 {
                Err(BindError::AvgArity { count: arguments.len() })
            } else {
                match bind_to_column(single_argument(arguments), table) {
                    Ok(column) => {
                        if !is_numeric_type(column.data_type) {
                            Err(BindError::AvgNonNumeric { data_type: column.data_type })
                        } else {
                            Ok(
                                ResolvedExpr::Aggregate(
                                    ResolvedAggregate {
                                        function: ResolvedAggregateFunction::Avg { column },
                                        data_type: DataTypeKind::F64,
                                    },
                                ),
                            )
                        }
                    },
                    Err(error) => Err(error),
                }
            }
        },
    }
}

/// A call of `count` or `avg`; any other function fails.
fn bind_function(name: String, arguments: UnresolvedFunctionArgs, table: &ResolvedTable) -> (result: Result<
    ResolvedExpr,
    BindError,
>)
    ensures
        match spec_bind_expr(UnresolvedExpr::Function { name, args: arguments }, table.name@, spec_columns_of(*table)) {
            Ok(shape) => result matches Ok(e) && spec_has_shape(e, shape, *table),
            Err(failure) => result matches Err(error) && error.spec_failure() == failure,
        },
{
    let count_name = "count".to_owned();
    let avg_name = "avg".to_owned();
    proof {
        lemma_columns_of(*table);
        reveal_strlit("count");
        reveal_strlit("avg");
        assert(count_name@ =~= spec_count_name());
        assert(avg_name@ =~= spec_avg_name());
    }
    if name == count_name {
        bind_count(arguments, table)
    } else if name == avg_name {
        bind_avg(arguments, table)
    } else {
        Err(BindError::UnsupportedFunction { name })
    }
}

/// Binds a column reference or a function call.
fn bind_expr(expression: UnresolvedExpr, table: &ResolvedTable) -> (result: Result<ResolvedExpr, BindError>)
    ensures
        match spec_bind_expr(expression, table.name@, spec_columns_of(*table)) {
            Ok(shape) => result matches Ok(e) && spec_has_shape(e, shape, *table),
            Err(failure) => result matches Err(error) && error.spec_failure() == failure,
        },
{
    match expression {
        UnresolvedExpr::Column(name) => match resolve_column(name.as_str(), table) {
            Ok(column) => Ok(ResolvedExpr::Column(column)),
            Err(error) => Err(error),
        },
        UnresolvedExpr::Function { name, args } => bind_function(name, args, table),
    }
}

/// Binds a projection item, keeping its alias.
fn bind_select_item(item: UnresolvedSelectItem, table: &ResolvedTable) -> (result: Result<ResolvedSelectItem, BindError>)
    ensures
        match spec_bind_expr(item.expr, table.name@, spec_columns_of(*table)) {
            Ok(shape) => result matches Ok(bound) && spec_has_shape(bound.expr, shape, *table) && bound.alias == item.alias,
            Err(failure) => result matches Err(error) && error.spec_failure() == failure,
        },
{
    let UnresolvedSelectItem { expr, alias } = item;
    match bind_expr(expr, table) {
        Ok(expr) => Ok(ResolvedSelectItem { expr, alias }),
        Err(error) => Err(error),
    }
}

/// Binds the projection items in order; the first failure stops it.
fn bind_projection(projection: Vec<UnresolvedSelectItem>, table: &ResolvedTable) -> (result: Result<
    Vec<ResolvedSelectItem>,
    BindError,
>)
    ensures
        match spec_bind_items(projection@, table.name@, spec_columns_of(*table)) {
            Ok(shapes) => result matches Ok(bound) && bound@.len() == shapes.len() && forall|i: int|
                0 <= i < shapes.len() ==> spec_has_shape((#[trigger] bound@[i]).expr, shapes[i], *table)
                    && bound@[i].alias == projection@[i].alias,
            Err(failure) => result matches Err(error) && error.spec_failure() == failure,
        },
{
    let ghost items = projection@;
    assert(items.len() == projection.len());
    let mut bound: Vec<ResolvedSelectItem> = Vec::new();
    let mut i: usize = 0;
    for item in it: projection
        invariant
            items == projection@,
            it.seq() == items,
            i == it.index(),
            i <= items.len(),
            items.len() <= usize::MAX,
            spec_bind_items(items.take(i as int), table.name@, spec_columns_of(*table)) matches Ok(shapes) && bound@.len() == shapes.len()
                && shapes.len() == i && forall|k: int|
                0 <= k < shapes.len() ==> spec_has_shape((#[trigger] bound@[k]).expr, shapes[k], *table)
                    && bound@[k].alias == items[k].alias,
    {
        assert(item == items[i as int]);
        assert(items.take(i + 1).drop_last() =~= items.take(i as int));
        assert(items.take(i + 1).last() == items[i as int]);
        match bind_select_item(item, table) {
            Ok(resolved) => {
                bound.push(resolved);
            },
            Err(error) => {
                proof {
                    lemma_items_failure_persists(items, table.name@, spec_columns_of(*table), i + 1);
                }
                return Err(error);
            },
        }
        i = i + 1;
    }
    assert(items.take(items.len() as int) =~= items);
    Ok(bound)
}

/// A failure among the first items is the failure of every longer prefix.
proof fn lemma_items_failure_persists(items: Seq<UnresolvedSelectItem>, table: Seq<char>, columns: ColumnList, n: int)
    requires
        0 <= n <= items.len(),
        spec_bind_items(items.take(n), table, columns) is Err,
    ensures
        spec_bind_items(items, table, columns) == spec_bind_items(items.take(n), table, columns),
    decreases items.len() - n,
{
    if n < items.len() {
        assert(items.take(n + 1).drop_last() =~= items.take(n));
        lemma_items_failure_persists(items, table, columns, n + 1);
    } else {
        assert(items.take(n) =~= items);
    }
}

/// Binds the grouping expressions in order; an aggregate there, or the
/// first failure, stops it.
fn bind_group_by(group_by: Vec<UnresolvedExpr>, table: &ResolvedTable) -> (result: Result<Vec<ResolvedExpr>, BindError>)
    ensures
        match spec_bind_groups(group_by@, table.name@, spec_columns_of(*table)) {
            Ok(shapes) => result matches Ok(bound) && bound@.len() == shapes.len() && forall|i: int|
                0 <= i < shapes.len() ==> spec_has_shape(#[trigger] bound@[i], shapes[i], *table),
            Err(failure) => result matches Err(error) && error.spec_failure() == failure,
        },
{
    let ghost items = group_by@;
    let ghost table_name = table.name@;
    let ghost columns = spec_columns_of(*table);
    assert(items.len() == group_by.len());
    let mut bound: Vec<ResolvedExpr> = Vec::new();
    let mut i: usize = 0;
    for expression in it: group_by
        invariant
            items == group_by@,
            table_name == table.name@,
            columns == spec_columns_of(*table),
            it.seq() == items,
            i == it.index(),
            i <= items.len(),
            items.len() <= usize::MAX,
            spec_bind_groups(items.take(i as int), table_name, columns) matches Ok(shapes) && bound@.len()
                == shapes.len() && shapes.len() == i && forall|k: int|
                0 <= k < shapes.len() ==> spec_has_shape(#[trigger] bound@[k], shapes[k], *table),
    {
        assert(expression == items[i as int]);
        assert(items.take(i + 1).drop_last() =~= items.take(i as int));
        assert(items.take(i + 1).last() == items[i as int]);
        match bind_expr(expression, table) {
            Ok(resolved) => {
                if is_aggregate(&resolved) {
                    proof {
                        lemma_groups_failure_persists(items, table_name, columns, i + 1);
                    }
                    return Err(BindError::AggregateInGroupBy);
                }
                bound.push(resolved);
            },
            Err(error) => {
                proof {
                    lemma_groups_failure_persists(items, table_name, columns, i + 1);
                }
                return Err(error);
            },
        }
        i = i + 1;
    }
    assert(items.take(items.len() as int) =~= items);
    Ok(bound)
}

/// A failure among the first grouping expressions is the failure of every
/// longer prefix.
proof fn lemma_groups_failure_persists(items: Seq<UnresolvedExpr>, table: Seq<char>, columns: ColumnList, n: int)
    requires
        0 <= n <= items.len(),
        spec_bind_groups(items.take(n), table, columns) is Err,
    ensures
        spec_bind_groups(items, table, columns) == spec_bind_groups(items.take(n), table, columns),
    decreases items.len() - n,
{
    if n < items.len() {
        assert(items.take(n + 1).drop_last() =~= items.take(n));
        lemma_groups_failure_persists(items, table, columns, n + 1);
    } else {
        assert(items.take(n) =~= items);
    }
}

/// Fails when a column already resolved is named `column_name`.
fn assert_unique_column_name(columns: &[ResolvedColumn], column_name: &str) -> (result: Result<(), BindError>)
    ensures
        match result {
            Ok(()) => forall|i: int| 0 <= i < columns@.len() ==> #[trigger] columns@[i].name@ != column_name@,
            Err(error) => error.spec_failure() == BindFailure::DuplicateColumnName(column_name@) && exists|i: int|
                0 <= i < columns@.len() && #[trigger] columns@[i].name@ == column_name@,
        },
{
    let wanted = column_name.to_owned();
    let mut i: usize = 0;
    while i < columns.len()
        invariant
            wanted@ == column_name@,
            i <= columns@.len(),
            forall|j: int| 0 <= j < i ==> #[trigger] columns@[j].name@ != column_name@,
        decreases columns@.len() - i,
    {
        if columns[i].name == wanted {
            assert(columns@[i as int].name@ == column_name@);
            return Err(BindError::DuplicateColumnName { column_name: wanted });
        }
        i = i + 1;
    }
    Ok(())
}

/// Resolved columns for every schema column, numbered by position; two
/// columns of the same name fail.
fn resolve_table_columns(schema: &TableSchema) -> (result: Result<Vec<ResolvedColumn>, BindError>)
    ensures
        match spec_first_duplicate(*schema) {
            None => result matches Ok(columns) && columns@.len() == schema.spec_columns().len() && forall|i: int|
                0 <= i < columns@.len() ==> {
                    &&& (#[trigger] columns@[i]).name@ == schema.spec_columns()[i].spec_name()
                    &&& columns@[i].index == i
                    &&& columns@[i].data_type == schema.spec_columns()[i].spec_data_type()
                },
            Some(j) => result matches Err(error) && error.spec_failure() == BindFailure::DuplicateColumnName(
                schema.spec_columns()[j].spec_name(),
            ),
        },
{
    let ghost definitions = schema.spec_columns();
    let count = schema.column_count();
    let mut columns: Vec<ResolvedColumn> = Vec::new();
    let mut index: usize = 0;
    while index < count
        invariant
            count == definitions.len(),
            definitions == schema.spec_columns(),
            index <= count,
            columns@.len() == index,
            forall|i: int|
                0 <= i < index ==> {
                    &&& (#[trigger] columns@[i]).name@ == definitions[i].spec_name()
                    &&& columns@[i].index == i
                    &&& columns@[i].data_type == definitions[i].spec_data_type()
                },
            forall|a: int, b: int| 0 <= a < b < index ==> #[trigger] definitions[a].spec_name() != #[trigger] definitions[b].spec_name(),
        decreases count - index,
    {
        let column = schema.column_at(index);
        match assert_unique_column_name(columns.as_slice(), column.name()) {
            Ok(()) => {
                assert forall|a: int| 0 <= a < index implies #[trigger] definitions[a].spec_name()
                    != definitions[index as int].spec_name() by {
                    assert(columns@[a].name@ == definitions[a].spec_name());
                }
            },
            Err(error) => {
                proof {
                    let a = choose|a: int| 0 <= a < columns@.len() && #[trigger] columns@[a].name@ == definitions[index as int].spec_name();
                    assert(definitions[a].spec_name() == definitions[index as int].spec_name());
                    let j = spec_first_duplicate(*schema);
                    assert(exists|i: int| 0 <= i < index && #[trigger] definitions[i].spec_name() == #[trigger] definitions[index as int].spec_name());
                    let chosen = j.unwrap();
                    if chosen < index {
                        let b = choose|b: int| 0 <= b < chosen && #[trigger] definitions[b].spec_name() == #[trigger] definitions[chosen].spec_name();
                        assert(definitions[b].spec_name() != definitions[chosen].spec_name());
                    } else if chosen > index {
                        assert(definitions[a].spec_name() != definitions[index as int].spec_name());
                    }
                }
                return Err(error);
            },
        }
        columns.push(ResolvedColumn { name: column.name().to_owned(), index, data_type: column.data_type() });
        index = index + 1;
    }
    proof {
        if spec_first_duplicate(*schema) is Some {
            let j = choose|j: int|
                0 <= j < definitions.len() && exists|i: int| 0 <= i < j && #[trigger] definitions[i].spec_name() == #[trigger] definitions[j].spec_name();
            let i = choose|i: int| 0 <= i < j && #[trigger] definitions[i].spec_name() == #[trigger] definitions[j].spec_name();
            assert(definitions[i].spec_name() != definitions[j].spec_name());
        }
    }
    Ok(columns)
}

/// Names and types of a schema's columns.
pub open spec fn spec_schema_columns(schema: TableSchema) -> ColumnList {
    schema.spec_columns().map_values(|c: crate::db_types::ColumnDefinition| (c.spec_name(), c.spec_data_type()))
}

/// What binding `plan` against `database` gives: the position of the table
/// and the shapes of the projection and grouping, or the first failure
/// (table lookup, duplicate column names, projection items in order,
/// grouping expressions in order, then the grouping check).
pub open spec fn spec_bind(plan: UnresolvedPlan, database: Database) -> Result<(int, Seq<ExprShape>, Seq<ExprShape>), BindFailure> {
    match plan {
        UnresolvedPlan::Select { projection, from, group_by } => match database.spec_find(from@) {
            None => Err(BindFailure::TableNotFound(from@)),
            Some(k) => {
                let schema = database.spec_tables()[k].spec_schema();
                match spec_first_duplicate(schema) {
                    Some(j) => Err(BindFailure::DuplicateColumnName(schema.spec_columns()[j].spec_name())),
                    None => {
                        let columns = spec_schema_columns(schema);
                        match spec_bind_items(projection@, from@, columns) {
                            Err(failure) => Err(failure),
                            Ok(items) => match spec_bind_groups(group_by@, from@, columns) {
                                Err(failure) => Err(failure),
                                Ok(groups) => if spec_grouping_violated(items, groups) {
                                    Err(BindFailure::NotInGroupBy)
                                } else {
                                    Ok((k, items, groups))
                                },
                            },
                        }
                    },
                }
            },
        },
    }
}

/// `resolved` is the plan that binding `plan` against `database` builds
/// when it succeeds.
pub open spec fn spec_bound(plan: UnresolvedPlan, database: Database, resolved: ResolvedPlan) -> bool {
    match (spec_bind(plan, database), plan, resolved) {
        (
            Ok((k, items, groups)),
            UnresolvedPlan::Select { projection: unresolved, .. },
            ResolvedPlan::Select { projection, from, group_by },
        ) => {
            &&& spec_resolves(from, database.spec_tables()[k])
            &&& projection@.len() == items.len()
            &&& forall|i: int|
                0 <= i < items.len() ==> spec_has_shape((#[trigger] projection@[i]).expr, items[i], from)
                    && projection@[i].alias == unresolved@[i].alias
            &&& group_by@.len() == groups.len()
            &&& forall|i: int| 0 <= i < groups.len() ==> spec_has_shape(#[trigger] group_by@[i], groups[i], from)
        },
        _ => false,
    }
}

/// Two resolved columns are equal.
pub open spec fn spec_same_column(a: ResolvedColumn, b: ResolvedColumn) -> bool {
    a.name@ == b.name@ && a.index == b.index && a.data_type == b.data_type
}

/// Two resolved expressions are equal.
pub open spec fn spec_same_expr(a: ResolvedExpr, b: ResolvedExpr) -> bool {
    match (a, b) {
        (ResolvedExpr::Column(x), ResolvedExpr::Column(y)) => spec_same_column(x, y),
        (ResolvedExpr::Aggregate(x), ResolvedExpr::Aggregate(y)) => x.data_type == y.data_type && match (
            x.function,
            y.function,
        ) {
            (ResolvedAggregateFunction::CountStar, ResolvedAggregateFunction::CountStar) => true,
            (ResolvedAggregateFunction::Count { column: c }, ResolvedAggregateFunction::Count { column: d }) => spec_same_column(c, d),
            (ResolvedAggregateFunction::Avg { column: c }, ResolvedAggregateFunction::Avg { column: d }) => spec_same_column(c, d),
            _ => false,
        },
        _ => false,
    }
}

/// Whether some expression of `list` equals `expression`.
pub open spec fn spec_contains_expr(list: Seq<ResolvedExpr>, expression: ResolvedExpr) -> bool {
    exists|j: int| 0 <= j < list.len() && spec_same_expr(#[trigger] list[j], expression)
}

/// Whether two resolved columns are equal.
fn same_column(a: &ResolvedColumn, b: &ResolvedColumn) -> (same: bool)
    ensures
        same == spec_same_column(*a, *b),
{
    a.name == b.name && a.index == b.index && a.data_type == b.data_type
}

/// Whether two resolved expressions are equal.
fn same_expr(a: &ResolvedExpr, b: &ResolvedExpr) -> (same: bool)
    ensures
        same == spec_same_expr(*a, *b),
{
    match (a, b) {
        (ResolvedExpr::Column(x), ResolvedExpr::Column(y)) => same_column(x, y),
        (ResolvedExpr::Aggregate(x), ResolvedExpr::Aggregate(y)) => {
            if x.data_type != y.data_type {
                false
            } else {
                match (&x.function, &y.function) {
                    (ResolvedAggregateFunction::CountStar, ResolvedAggregateFunction::CountStar) => true,
                    (ResolvedAggregateFunction::Count { column: c }, ResolvedAggregateFunction::Count { column: d }) => {
                        same_column(c, d)
                    },
                    (ResolvedAggregateFunction::Avg { column: c }, ResolvedAggregateFunction::Avg { column: d }) => {
                        same_column(c, d)
                    },
                    _ => false,
                }
            }
        },
        _ => false,
    }
}

/// Whether `list` holds an expression equal to `expression`.
fn contains_expr(list: &[ResolvedExpr], expression: &ResolvedExpr) -> (found: bool)
    ensures
        found == spec_contains_expr(list@, *expression),
{
    let mut j: usize = 0;
    while j < list.len()
        invariant
            j <= list@.len(),
            forall|k: int| 0 <= k < j ==> !spec_same_expr(#[trigger] list@[k], *expression),
        decreases list@.len() - j,
    {
        if same_expr(&list[j], expression) {
            return true;
        }
        j = j + 1;
    }
    false
}

/// Whether some projection item is an aggregate.
fn projection_has_aggregate(projection: &[ResolvedSelectItem]) -> (found: bool)
    ensures
        found == exists|i: int| 0 <= i < projection@.len() && (#[trigger] projection@[i]).expr is Aggregate,
{
    let mut i: usize = 0;
    while i < projection.len()
        invariant
            i <= projection@.len(),
            forall|k: int| 0 <= k < i ==> !((#[trigger] projection@[k]).expr is Aggregate),
        decreases projection@.len() - i,
    {
        if is_aggregate(&projection[i].expr) {
            return true;
        }
        i = i + 1;
    }
    false
}

/// In an aggregating query every plain item must be grouped by.
fn validate_aggregate_projection(projection: &[ResolvedSelectItem], group_by: &[ResolvedExpr]) -> (result: Result<(), BindError>)
    ensures
        match result {
            Ok(()) => forall|i: int|
                0 <= i < projection@.len() ==> (#[trigger] projection@[i]).expr is Aggregate || spec_contains_expr(
                    group_by@,
                    projection@[i].expr,
                ),
            Err(error) => error.spec_failure() == BindFailure::NotInGroupBy && exists|i: int|
                0 <= i < projection@.len() && !((#[trigger] projection@[i]).expr is Aggregate) && !spec_contains_expr(
                    group_by@,
                    projection@[i].expr,
                ),
        },
{
    let mut i: usize = 0;
    while i < projection.len()
        invariant
            i <= projection@.len(),
            forall|k: int|
                0 <= k < i ==> (#[trigger] projection@[k]).expr is Aggregate || spec_contains_expr(group_by@, projection@[k].expr),
        decreases projection@.len() - i,
    {
        let allowed = is_aggregate(&projection[i].expr) || contains_expr(group_by, &projection[i].expr);
        if !allowed {
            assert(!(projection@[i as int].expr is Aggregate));
            return Err(BindError::NotInGroupBy);
        }
        i = i + 1;
    }
    Ok(())
}

/// In a grouped query without aggregates every item must be grouped by.
fn validate_non_aggregate_projection(projection: &[ResolvedSelectItem], group_by: &[ResolvedExpr]) -> (result: Result<
    (),
    BindError,
>)
    ensures
        match result {
            Ok(()) => forall|i: int|
                0 <= i < projection@.len() ==> spec_contains_expr(group_by@, (#[trigger] projection@[i]).expr),
            Err(error) => error.spec_failure() == BindFailure::NotInGroupBy && exists|i: int|
                0 <= i < projection@.len() && !spec_contains_expr(group_by@, (#[trigger] projection@[i]).expr),
        },
{
    let mut i: usize = 0;
    while i < projection.len()
        invariant
            i <= projection@.len(),
            forall|k: int| 0 <= k < i ==> spec_contains_expr(group_by@, (#[trigger] projection@[k]).expr),
        decreases projection@.len() - i,
    {
        if !contains_expr(group_by, &projection[i].expr) {
            assert(!spec_contains_expr(group_by@, projection@[i as int].expr));
            return Err(BindError::NotInGroupBy);
        }
        i = i + 1;
    }
    Ok(())
}

/// A projection that aggregates or groups may only show grouped columns
/// besides its aggregates.
fn validate_grouped_projection(projection: &[ResolvedSelectItem], group_by: &[ResolvedExpr]) -> (result: Result<(), BindError>)
    ensures
        ({
            let aggregates = exists|i: int| 0 <= i < projection@.len() && (#[trigger] projection@[i]).expr is Aggregate;
            let violated = (aggregates || group_by@.len() > 0) && exists|i: int|
                0 <= i < projection@.len() && !((#[trigger] projection@[i]).expr is Aggregate) && !spec_contains_expr(
                    group_by@,
                    projection@[i].expr,
                );
            match result {
                Ok(()) => !violated,
                Err(error) => violated && error.spec_failure() == BindFailure::NotInGroupBy,
            }
        }),
{
    if projection_has_aggregate(projection) {
        validate_aggregate_projection(projection, group_by)
    } else if group_by.len() > 0 {
        validate_non_aggregate_projection(projection, group_by)
    } else {
        Ok(())
    }
}

/// The table named `table_name`, resolved.
fn resolve_table(table_name: &str, database: &Database) -> (result: Result<ResolvedTable, BindError>)
    requires
        database.wf(),
    ensures
        match database.spec_find(table_name@) {
            None => result matches Err(error) && error.spec_failure() == BindFailure::TableNotFound(table_name@),
            Some(k) => match spec_first_duplicate(database.spec_tables()[k].spec_schema()) {
                None => result matches Ok(table) && spec_resolves(table, database.spec_tables()[k]),
                Some(j) => result matches Err(error) && error.spec_failure() == BindFailure::DuplicateColumnName(
                    database.spec_tables()[k].spec_schema().spec_columns()[j].spec_name(),
                ),
            },
        },
{
    match database.get_table(table_name) {
        None => Err(BindError::TableNotFound { table_name: table_name.to_owned() }),
        Some(table) => match resolve_table_columns(table.schema()) {
            Ok(columns) => Ok(ResolvedTable { id: table.id(), name: table.name().to_owned(), columns }),
            Err(error) => Err(error),
        },
    }
}

/// Binding a grouping expression gives a column.
proof fn lemma_groups_are_columns(expressions: Seq<UnresolvedExpr>, table: Seq<char>, columns: ColumnList)
    requires
        spec_bind_groups(expressions, table, columns) is Ok,
    ensures
        ({
            let shapes = spec_bind_groups(expressions, table, columns)->Ok_0;
            &&& shapes.len() == expressions.len()
            &&& forall|i: int| 0 <= i < shapes.len() ==> #[trigger] shapes[i] is Column
        }),
    decreases expressions.len(),
{
    if expressions.len() > 0 {
        lemma_groups_are_columns(expressions.drop_last(), table, columns);
    }
}

/// Binding the projection gives one shape per item.
proof fn lemma_items_len(items: Seq<UnresolvedSelectItem>, table: Seq<char>, columns: ColumnList)
    requires
        spec_bind_items(items, table, columns) is Ok,
    ensures
        spec_bind_items(items, table, columns)->Ok_0.len() == items.len(),
    decreases items.len(),
{
    if items.len() > 0 {
        lemma_items_len(items.drop_last(), table, columns);
    }
}

/// A resolved table without duplicate names is well formed and lists the
/// schema's columns.
proof fn lemma_resolved_table(table: ResolvedTable, source: crate::db_catalog::DBTable)
    requires
        spec_resolves(table, source),
        spec_first_duplicate(source.spec_schema()) is None,
    ensures
        spec_table_wf(table),
        spec_columns_of(table) == spec_schema_columns(source.spec_schema()),
{
    let definitions = source.spec_schema().spec_columns();
    assert forall|i: int, j: int| 0 <= i < j < table.columns@.len() implies #[trigger] table.columns@[i].name@
        != #[trigger] table.columns@[j].name@ by {
        if definitions[i].spec_name() == definitions[j].spec_name() {
            assert(exists|a: int| 0 <= a < j && #[trigger] definitions[a].spec_name() == #[trigger] definitions[j].spec_name());
        }
    }
    assert(spec_columns_of(table) =~= spec_schema_columns(source.spec_schema()));
}

/// Against a well-formed table, a grouped column contains a plain item
/// exactly when their shapes agree.
proof fn lemma_contains_shape(
    expression: ResolvedExpr,
    position: int,
    group_by: Seq<ResolvedExpr>,
    groups: Seq<ExprShape>,
    table: ResolvedTable,
)
    requires
        spec_table_wf(table),
        spec_has_shape(expression, ExprShape::Column(position), table),
        group_by.len() == groups.len(),
        forall|j: int| 0 <= j < groups.len() ==> #[trigger] groups[j] is Column,
        forall|j: int| 0 <= j < groups.len() ==> spec_has_shape(#[trigger] group_by[j], groups[j], table),
    ensures
        spec_contains_expr(group_by, expression) == groups.contains(ExprShape::Column(position)),
{
    if spec_contains_expr(group_by, expression) {
        let j = choose|j: int| 0 <= j < group_by.len() && spec_same_expr(#[trigger] group_by[j], expression);
        assert(groups[j] is Column);
        assert(spec_has_shape(group_by[j], groups[j], table));
        assert(groups[j] == ExprShape::Column(position));
    }
    if groups.contains(ExprShape::Column(position)) {
        let j = choose|j: int| 0 <= j < groups.len() && groups[j] == ExprShape::Column(position);
        assert(spec_has_shape(group_by[j], groups[j], table));
        assert(spec_same_expr(group_by[j], expression));
    }
}

/// Resolves the table, binds projection and grouping, and checks the
/// grouping.
fn bind_select(
    projection: Vec<UnresolvedSelectItem>,
    from: String,
    group_by: Vec<UnresolvedExpr>,
    database: &Database,
) -> (result: Result<ResolvedPlan, BindError>)
    requires
        database.wf(),
    ensures
        ({
            let plan = UnresolvedPlan::Select { projection, from, group_by };
            match spec_bind(plan, *database) {
                Ok(_) => result matches Ok(resolved) && spec_bound(plan, *database, resolved),
                Err(failure) => result matches Err(error) && error.spec_failure() == failure,
            }
        }),
{
    let ghost unresolved = projection@;
    let ghost groups_unresolved = group_by@;
    let table = match resolve_table(from.as_str(), database) {
        Ok(table) => table,
        Err(error) => {
            return Err(error);
        },
    };
    let ghost k = database.spec_find(from@).unwrap();
    proof {
        lemma_resolved_table(table, database.spec_tables()[k]);
        assert(database.spec_tables()[k].spec_name() == from@);
    }
    let projection = match bind_projection(projection, &table) {
        Ok(bound) => bound,
        Err(error) => {
            return Err(error);
        },
    };
    let group_by = match bind_group_by(group_by, &table) {
        Ok(bound) => bound,
        Err(error) => {
            return Err(error);
        },
    };
    let ghost columns = spec_columns_of(table);
    let ghost items = spec_bind_items(unresolved, from@, columns)->Ok_0;
    let ghost groups = spec_bind_groups(groups_unresolved, from@, columns)->Ok_0;
    proof {
        lemma_groups_are_columns(groups_unresolved, from@, columns);
        lemma_items_len(unresolved, from@, columns);
        assert forall|i: int| 0 <= i < projection@.len() implies ((#[trigger] projection@[i]).expr is Aggregate) == !(
        items[i] is Column) by {
            assert(spec_has_shape(projection@[i].expr, items[i], table));
        }
        assert forall|i: int| 0 <= i < projection@.len() && !((#[trigger] projection@[i]).expr is Aggregate) implies
            spec_contains_expr(group_by@, projection@[i].expr) == groups.contains(items[i]) by {
            assert(spec_has_shape(projection@[i].expr, items[i], table));
            lemma_contains_shape(projection@[i].expr, items[i]->Column_0, group_by@, groups, table);
        }
        let aggregates = exists|i: int| 0 <= i < projection@.len() && (#[trigger] projection@[i]).expr is Aggregate;
        if aggregates {
            let i = choose|i: int| 0 <= i < projection@.len() && (#[trigger] projection@[i]).expr is Aggregate;
            assert(!(items[i] is Column));
        }
        if exists|i: int| 0 <= i < items.len() && !(#[trigger] items[i] is Column) {
            let i = choose|i: int| 0 <= i < items.len() && !(#[trigger] items[i] is Column);
            assert(projection@[i].expr is Aggregate);
        }
        if exists|i: int| 0 <= i < items.len() && #[trigger] items[i] is Column && !groups.contains(items[i]) {
            let i = choose|i: int| 0 <= i < items.len() && #[trigger] items[i] is Column && !groups.contains(items[i]);
            assert(!(projection@[i].expr is Aggregate));
        }
        if exists|i: int|
            0 <= i < projection@.len() && !((#[trigger] projection@[i]).expr is Aggregate) && !spec_contains_expr(
                group_by@,
                projection@[i].expr,
            ) {
            let i = choose|i: int|
                0 <= i < projection@.len() && !((#[trigger] projection@[i]).expr is Aggregate) && !spec_contains_expr(
                    group_by@,
                    projection@[i].expr,
                );
            assert(items[i] is Column);
        }
    }
    match validate_grouped_projection(projection.as_slice(), group_by.as_slice()) {
        Ok(()) => {},
        Err(error) => {
            return Err(error);
        },
    }
    Ok(ResolvedPlan::Select { projection, from: table, group_by })
}

/// Binds an unresolved plan against the catalog, or says why it cannot be
/// bound.
pub fn try_bind(plan: UnresolvedPlan, database: &Database) -> (result: Result<ResolvedPlan, BindError>)
    requires
        database.wf(),
    ensures
        match spec_bind(plan, *database) {
            Ok(_) => result matches Ok(resolved) && spec_bound(plan, *database, resolved),
            Err(failure) => result matches Err(error) && error.spec_failure() == failure,
        },
{
    let UnresolvedPlan::Select { projection, from, group_by } = plan;
    bind_select(projection, from, group_by, database)
}

/// Binds an unresolved plan that can be bound against the catalog.
pub fn bind(plan: UnresolvedPlan, database: &Database) -> (resolved: ResolvedPlan)
    requires
        database.wf(),
        spec_bind(plan, *database) is Ok,
    ensures
        spec_bound(plan, *database, resolved),
{
    match try_bind(plan, database) {
        Ok(resolved) => resolved,
        Err(_) => {
            proof {
                assert(false);
            }
            ResolvedPlan::Select {
                projection: Vec::new(),
                from: ResolvedTable { id: 0, name: String::new(), columns: Vec::new() },
                group_by: Vec::new(),
            }
        },
    }
}

/// Every plan that binding produces can be planned: its column references
/// are columns of its table, it groups by columns only, and when it
/// aggregates or groups, every plain column it selects is grouped by.
pub proof fn lemma_bound_is_plannable(plan: UnresolvedPlan, database: Database, resolved: ResolvedPlan)
    requires
        database.wf(),
        spec_bound(plan, database, resolved),
    ensures
        match resolved {
            ResolvedPlan::Select { projection, from, group_by } => spec_plannable(projection@, from, group_by@),
        },
{
    let UnresolvedPlan::Select { projection: unresolved, from: name, group_by: groups_unresolved } = plan;
    let ResolvedPlan::Select { projection, from, group_by } = resolved;
    let (k, items, groups) = spec_bind(plan, database)->Ok_0;
    let source = database.spec_tables()[k];
    let columns = spec_schema_columns(source.spec_schema());
    assert(spec_bind_items(unresolved@, name@, columns) == Ok::<Seq<ExprShape>, BindFailure>(items));
    assert(spec_bind_groups(groups_unresolved@, name@, columns) == Ok::<Seq<ExprShape>, BindFailure>(groups));
    lemma_groups_are_columns(groups_unresolved@, name@, columns);
    let count = from.columns@.len();
    assert forall|i: int| 0 <= i < projection@.len() implies spec_columns_below(#[trigger] projection@[i].expr, count) by {
        assert(spec_has_shape(projection@[i].expr, items[i], from));
    }
    assert forall|i: int| 0 <= i < group_by@.len() implies spec_columns_below(#[trigger] group_by@[i], count) by {
        assert(spec_has_shape(group_by@[i], groups[i], from));
    }
    assert forall|i: int| 0 <= i < group_by@.len() implies (#[trigger] group_by@[i]) is Column by {
        assert(spec_has_shape(group_by@[i], groups[i], from));
        assert(groups[i] is Column);
    }
    if spec_needs_aggregate(projection@, group_by@) {
        if spec_has_aggregate(projection@) {
            let i = choose|i: int| 0 <= i < projection@.len() && spec_is_aggregate((#[trigger] projection@[i]).expr);
            assert(spec_has_shape(projection@[i].expr, items[i], from));
            assert(!(items[i] is Column));
        }
        assert forall|i: int| 0 <= i < projection@.len() implies ((#[trigger] projection@[i]).expr matches ResolvedExpr::Column(
            c,
        ) ==> spec_grouped_by(group_by@, c.index)) by {
            assert(spec_has_shape(projection@[i].expr, items[i], from));
            if projection@[i].expr is Column {
                let c = projection@[i].expr->Column_0;
                assert(items[i] is Column);
                assert(groups.contains(items[i]));
                let p = choose|p: int| 0 <= p < groups.len() && groups[p] == items[i];
                assert(spec_has_shape(group_by@[p], groups[p], from));
                assert(group_by@[p] matches ResolvedExpr::Column(g) && g.index == c.index);
            }
        }
    }
}

} // verus!
