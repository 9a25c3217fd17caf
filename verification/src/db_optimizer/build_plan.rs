//! Builds a logical operator tree from a resolved `SELECT`.
use vstd::prelude::*;

use crate::db_core::dtype::DataTypeKind;
use crate::db_types::plan::logical_plan::{
    spec_aggregate_in_range, spec_aggregate_name, spec_aggregate_output, spec_aggregate_type, ColumnView,
};
use crate::db_types::plan::{
    AggregateExpr, AggregateFunction, ColumnRef, LogicalPlan, ProjectionExpr, ResolvedAggregate,
    ResolvedAggregateFunction, ResolvedColumn, ResolvedExpr, ResolvedPlan, ResolvedSelectItem,
    ResolvedTable, ScanColumn,
};

verus! {

/// Table column indices that an expression reads.
pub open spec fn spec_expr_indices(expression: ResolvedExpr) -> Seq<usize> {
    match expression {
        ResolvedExpr::Column(column) => seq![column.index],
        ResolvedExpr::Aggregate(aggregate) => match aggregate.function {
            ResolvedAggregateFunction::CountStar => Seq::empty(),
            ResolvedAggregateFunction::Count { column } => seq![column.index],
            ResolvedAggregateFunction::Avg { column } => seq![column.index],
        },
    }
}

/// Whether a query reads table column `index`, in its projection or its
/// grouping.
pub open spec fn spec_is_referenced(
    projection: Seq<ResolvedSelectItem>,
    group_by: Seq<ResolvedExpr>,
    index: usize,
) -> bool {
    spec_items_read(projection, projection.len() as int, index) || spec_exprs_read(group_by, group_by.len() as int, index)
}

/// Whether one of the first `count` projection items reads table column
/// `index`.
pub open spec fn spec_items_read(projection: Seq<ResolvedSelectItem>, count: int, index: usize) -> bool {
    exists|i: int| 0 <= i < count && spec_expr_indices((#[trigger] projection[i]).expr).contains(index)
}

/// Whether one of the first `count` expressions reads table column `index`.
pub open spec fn spec_exprs_read(expressions: Seq<ResolvedExpr>, count: int, index: usize) -> bool {
    exists|i: int| 0 <= i < count && spec_expr_indices(#[trigger] expressions[i]).contains(index)
}

/// Every table column that `expression` reads has an index below `count`.
pub open spec fn spec_columns_below(expression: ResolvedExpr, count: nat) -> bool {
    forall|k: int| 0 <= k < spec_expr_indices(expression).len() ==> #[trigger] spec_expr_indices(expression)[k] < count
}

/// Every table column that `expression` reads occurs in `referenced`.
pub open spec fn spec_reads_within(expression: ResolvedExpr, referenced: Seq<usize>) -> bool {
    forall|k: int| 0 <= k < spec_expr_indices(expression).len() ==> referenced.contains(#[trigger] spec_expr_indices(expression)[k])
}

/// Strictly increasing.
pub open spec fn spec_strictly_increasing(s: Seq<usize>) -> bool {
    forall|i: int, j: int| 0 <= i < j < s.len() ==> s[i] < s[j]
}

/// The referenced column indices in ascending order, each once.
pub open spec fn spec_referenced_indices(
    projection: Seq<ResolvedSelectItem>,
    group_by: Seq<ResolvedExpr>,
    referenced: Seq<usize>,
) -> bool {
    &&& spec_strictly_increasing(referenced)
    &&& forall|x: usize| referenced.contains(x) <==> spec_is_referenced(projection, group_by, x)
}

/// Position of `value` in `s`.
pub open spec fn spec_position(s: Seq<usize>, value: usize, position: int) -> bool {
    0 <= position < s.len() && s[position] == value
}

/// Whether an expression is an aggregate.
pub open spec fn spec_is_aggregate(expression: ResolvedExpr) -> bool {
    expression is Aggregate
}

/// Whether any projection item is an aggregate.
pub open spec fn spec_has_aggregate(projection: Seq<ResolvedSelectItem>) -> bool {
    exists|i: int| 0 <= i < projection.len() && spec_is_aggregate((#[trigger] projection[i]).expr)
}

/// Whether the query needs an aggregate node.
pub open spec fn spec_needs_aggregate(projection: Seq<ResolvedSelectItem>, group_by: Seq<ResolvedExpr>) -> bool {
    spec_has_aggregate(projection) || group_by.len() > 0
}

/// Whether some grouping expression is the column with table index `index`.
pub open spec fn spec_grouped_by(group_by: Seq<ResolvedExpr>, index: usize) -> bool {
    exists|p: int| 0 <= p < group_by.len() && ((#[trigger] group_by[p]) matches ResolvedExpr::Column(c) && c.index == index)
}

/// First position in the grouping whose column has table index `index`.
pub open spec fn spec_first_group_position(group_by: Seq<ResolvedExpr>, index: usize, position: int) -> bool {
    &&& 0 <= position < group_by.len()
    &&& (group_by[position] matches ResolvedExpr::Column(c) && c.index == index)
    &&& forall|q: int| 0 <= q < position ==> !(#[trigger] group_by[q] matches ResolvedExpr::Column(c) && c.index == index)
}

/// Number of aggregate items among the first `count` projection items.
pub open spec fn spec_aggregates_before(projection: Seq<ResolvedSelectItem>, count: int) -> nat
    decreases count,
{
    if count <= 0 {
        0
    } else {
        spec_aggregates_before(projection, count - 1) + if spec_is_aggregate(projection[count - 1].expr) {
            1nat
        } else {
            0nat
        }
    }
}

/// The aggregate items of a projection, in order.
pub open spec fn spec_aggregate_items(projection: Seq<ResolvedSelectItem>) -> Seq<ResolvedAggregate>
    decreases projection.len(),
{
    if projection.len() == 0 {
        Seq::empty()
    } else {
        let rest = spec_aggregate_items(projection.drop_last());
        match projection.last().expr {
            ResolvedExpr::Aggregate(aggregate) => rest.push(aggregate),
            ResolvedExpr::Column(_) => rest,
        }
    }
}

/// A logical aggregate function is a resolved one with its input column
/// replaced by that column's position in `referenced`.
pub open spec fn spec_remapped_function(
    resolved: ResolvedAggregateFunction,
    function: AggregateFunction,
    referenced: Seq<usize>,
) -> bool {
    match resolved {
        ResolvedAggregateFunction::CountStar => function is CountStar,
        ResolvedAggregateFunction::Count { column } => function matches AggregateFunction::Count { input }
            && spec_position(referenced, column.index, input.index as int),
        ResolvedAggregateFunction::Avg { column } => function matches AggregateFunction::Avg { input }
            && spec_position(referenced, column.index, input.index as int),
    }
}

/// `plan` is a scan of `from` that reads exactly the columns in `referenced`.
pub open spec fn spec_scan_of(plan: LogicalPlan, from: ResolvedTable, referenced: Seq<usize>) -> bool {
    match plan {
        LogicalPlan::TableScan { table_id, table_name, columns } => {
            &&& table_id == from.id
            &&& table_name@ == from.name@
            &&& columns@.len() == referenced.len()
            &&& forall|i: int|
                0 <= i < referenced.len() ==> {
                    &&& (#[trigger] columns@[i]).table_index == referenced[i]
                    &&& columns@[i].name@ == from.columns@[referenced[i] as int].name@
                    &&& columns@[i].data_type == from.columns@[referenced[i] as int].data_type
                }
        },
        _ => false,
    }
}

/// Preconditions under which planning succeeds: every column reference is
/// a column of the table, grouping uses only columns, and in a grouped
/// query every plain column of the projection is a grouping column.
pub open spec fn spec_plannable(projection: Seq<ResolvedSelectItem>, from: ResolvedTable, group_by: Seq<ResolvedExpr>) -> bool {
    &&& forall|i: int|
        0 <= i < projection.len() ==> spec_columns_below(#[trigger] projection[i].expr, from.columns@.len())
    &&& forall|i: int| 0 <= i < group_by.len() ==> spec_columns_below(#[trigger] group_by[i], from.columns@.len())
    &&& forall|i: int| 0 <= i < group_by.len() ==> (#[trigger] group_by[i]) is Column
    &&& spec_needs_aggregate(projection, group_by) ==> forall|i: int|
        0 <= i < projection.len() ==> ((#[trigger] projection[i]).expr matches ResolvedExpr::Column(c) ==> spec_grouped_by(group_by, c.index))
}

/// The logical plan built for a resolved `SELECT`: a scan of the referenced
/// columns, an aggregate node when the query aggregates or groups, and a
/// projection that yields the selected items in order.
pub open spec fn spec_planned(
    projection: Seq<ResolvedSelectItem>,
    from: ResolvedTable,
    group_by: Seq<ResolvedExpr>,
    plan: LogicalPlan,
) -> bool {
    exists|referenced: Seq<usize>| #[trigger] spec_referenced_indices(projection, group_by, referenced)
        && spec_planned_over(projection, from, group_by, referenced, plan)
}

/// The plan of `spec_planned`, for a given ascending list of the referenced
/// table columns.
pub open spec fn spec_planned_over(
    projection: Seq<ResolvedSelectItem>,
    from: ResolvedTable,
    group_by: Seq<ResolvedExpr>,
    referenced: Seq<usize>,
    plan: LogicalPlan,
) -> bool {
    match plan {
        LogicalPlan::Projection { expressions, input } => {
            &&& expressions@.len() == projection.len()
            &&& forall|i: int| 0 <= i < projection.len() ==> (#[trigger] expressions@[i]).alias == projection[i].alias
            &&& if spec_needs_aggregate(projection, group_by) {
                &&& spec_aggregate_planned(projection, group_by, referenced, expressions@, *input)
                &&& spec_scan_of(input.spec_input(), from, referenced)
            } else {
                &&& spec_scan_of(*input, from, referenced)
                &&& forall|i: int|
                    0 <= i < projection.len() ==> spec_position(
                        referenced,
                        projection[i].expr->Column_0.index,
                        (#[trigger] expressions@[i]).input.index as int,
                    )
            }
        },
        _ => false,
    }
}

/// The aggregating half of `spec_planned_over`: an aggregate node that
/// groups by the grouping columns and computes the projection's aggregates in
/// order, and projection inputs that pick the first matching group key for a
/// plain column and the aggregate's own output otherwise.
pub open spec fn spec_aggregate_planned(
    projection: Seq<ResolvedSelectItem>,
    group_by: Seq<ResolvedExpr>,
    referenced: Seq<usize>,
    expressions: Seq<ProjectionExpr>,
    aggregate: LogicalPlan,
) -> bool {
    let items = spec_aggregate_items(projection);
    match aggregate {
        LogicalPlan::Aggregate { group_keys, aggregates, input } => {
            &&& group_keys@.len() == group_by.len()
            &&& forall|i: int|
                0 <= i < group_by.len() ==> spec_position(
                    referenced,
                    group_by[i]->Column_0.index,
                    (#[trigger] group_keys@[i]).index as int,
                )
            &&& aggregates@.len() == items.len()
            &&& forall|j: int|
                0 <= j < items.len() ==> spec_remapped_function(
                    items[j].function,
                    (#[trigger] aggregates@[j]).function,
                    referenced,
                )
            &&& forall|i: int|
                0 <= i < projection.len() ==> match projection[i].expr {
                    ResolvedExpr::Column(c) => spec_first_group_position(
                        group_by,
                        c.index,
                        (#[trigger] expressions[i]).input.index as int,
                    ),
                    ResolvedExpr::Aggregate(_) => expressions[i].input.index == group_by.len()
                        + spec_aggregates_before(projection, i),
                }
        },
        _ => false,
    }
}

/// Whether `expression` is an aggregate.
fn is_aggregate(expression: &ResolvedExpr) -> (result: bool)
    ensures
        result == spec_is_aggregate(*expression),
{
    match expression {
        ResolvedExpr::Aggregate(_) => true,
        ResolvedExpr::Column(_) => false,
    }
}

/// Appends the table column indices that `expression` reads. Aggregate
/// inputs are single columns (binding rejects nested aggregates), so they
/// come straight from the function variant.
fn collect_expr_column_indices(expression: &ResolvedExpr, indices: &mut Vec<usize>)
    ensures
        final(indices)@ == old(indices)@ + spec_expr_indices(*expression),
{
    match expression {
        ResolvedExpr::Column(column) => {
            indices.push(column.index);
        },
        ResolvedExpr::Aggregate(aggregate) => match &aggregate.function {
            ResolvedAggregateFunction::CountStar => {
                assert(indices@ + Seq::<usize>::empty() =~= indices@);
            },
            ResolvedAggregateFunction::Count { column } => {
                indices.push(column.index);
            },
            ResolvedAggregateFunction::Avg { column } => {
                indices.push(column.index);
            },
        },
    }
}

/// Maps a table column index to its position among the referenced columns,
/// which is its position in the scan's output.
fn remap_to_scan_index(table_index: usize, referenced: &[usize]) -> (result: ColumnRef)
    requires
        referenced@.contains(table_index),
    ensures
        spec_position(referenced@, table_index, result.index as int),
{
    let mut scan_index: usize = 0;
    while scan_index < referenced.len()
        invariant
            scan_index <= referenced@.len(),
            referenced@.contains(table_index),
            forall|k: int| 0 <= k < scan_index ==> referenced@[k] != table_index,
        decreases referenced@.len() - scan_index,
    {
        if referenced[scan_index] == table_index {
            return ColumnRef { index: scan_index };
        }
        scan_index = scan_index + 1;
    }
    proof {
        let k = choose|k: int| 0 <= k < referenced@.len() && referenced@[k] == table_index;
        assert(referenced@[k] != table_index);
    }
    ColumnRef { index: 0 }
}

/// Position of the first grouping column with the same table index as
/// `column`.
fn find_group_key_position(column: &ResolvedColumn, group_by: &[ResolvedExpr]) -> (position: usize)
    requires
        spec_grouped_by(group_by@, column.index),
    ensures
        spec_first_group_position(group_by@, column.index, position as int),
{
    let mut position: usize = 0;
    while position < group_by.len()
        invariant
            position <= group_by@.len(),
            spec_grouped_by(group_by@, column.index),
            forall|q: int|
                0 <= q < position ==> !(#[trigger] group_by@[q] matches ResolvedExpr::Column(c) && c.index == column.index),
        decreases group_by@.len() - position,
    {
        match &group_by[position] {
            ResolvedExpr::Column(group_column) => {
                if group_column.index == column.index {
                    return position;
                }
            },
            ResolvedExpr::Aggregate(_) => {},
        }
        position = position + 1;
    }
    proof {
        let p = choose|p: int|
            0 <= p < group_by@.len() && (#[trigger] group_by@[p] matches ResolvedExpr::Column(c) && c.index == column.index);
        assert(!(group_by@[p] matches ResolvedExpr::Column(c) && c.index == column.index));
    }
    0
}

/// The distinct values of `values` in ascending order.
fn sorted_distinct(values: &Vec<usize>) -> (result: Vec<usize>)
    ensures
        spec_strictly_increasing(result@),
        forall|x: usize| result@.contains(x) <==> values@.contains(x),
{
    let mut result: Vec<usize> = Vec::new();
    let mut i: usize = 0;
    while i < values.len()
        invariant
            i <= values@.len(),
            spec_strictly_increasing(result@),
            forall|x: usize| result@.contains(x) <==> values@.take(i as int).contains(x),
        decreases values@.len() - i,
    {
        let value = values[i];
        let mut position: usize = 0;
        while position < result.len() && result[position] < value
            invariant
                position <= result@.len(),
                forall|k: int| 0 <= k < position ==> result@[k] < value,
            decreases result@.len() - position,
        {
            position = position + 1;
        }
        let ghost before = result@;
        if position == result.len() || result[position] != value {
            result.insert(position, value);
            proof {
                assert forall|a: int, b: int| 0 <= a < b < result@.len() implies result@[a] < result@[b] by {
                    if b < position {
                    } else if a < position && b == position {
                    } else if a < position {
                        assert(result@[b] == before[b - 1]);
                    } else if a == position {
                        assert(result@[b] == before[b - 1]);
                        assert(before[position as int] > value);
                    } else {
                        assert(result@[a] == before[a - 1]);
                        assert(result@[b] == before[b - 1]);
                    }
                }
            }
        }
        proof {
            assert(values@.take(i + 1) =~= values@.take(i as int).push(value));
            assert forall|x: usize| result@.contains(x) <==> values@.take(i + 1).contains(x) by {
                if result@.contains(x) {
                    let k = choose|k: int| 0 <= k < result@.len() && result@[k] == x;
                    if x != value {
                        if before.len() < result@.len() {
                            if k < position {
                                assert(before[k] == x);
                            } else {
                                assert(before[k - 1] == x);
                            }
                        }
                        assert(before.contains(x));
                        assert(values@.take(i as int).contains(x));
                        let m = choose|m: int| 0 <= m < i && #[trigger] values@.take(i as int)[m] == x;
                        assert(values@.take(i + 1)[m] == x);
                    } else {
                        assert(values@.take(i + 1)[i as int] == x);
                    }
                }
                if values@.take(i + 1).contains(x) {
                    let m = choose|m: int| 0 <= m < i + 1 && #[trigger] values@.take(i + 1)[m] == x;
                    if m < i {
                        assert(values@.take(i as int)[m] == x);
                        assert(before.contains(x));
                        let k = choose|k: int| 0 <= k < before.len() && before[k] == x;
                        if before.len() < result@.len() {
                            if k < position {
                                assert(result@[k] == x);
                            } else {
                                assert(result@[k + 1] == x);
                            }
                        } else {
                            assert(result@[k] == x);
                        }
                    } else {
                        assert(x == value);
                        assert(result@[position as int] == x);
                    }
                }
            }
        }
        i = i + 1;
    }
    assert(values@.take(values@.len() as int) =~= values@);
    result
}

/// The table columns that the query reads, in ascending order, each once.
fn collect_referenced_indices(projection: &[ResolvedSelectItem], group_by: &[ResolvedExpr]) -> (referenced: Vec<usize>)
    ensures
        spec_referenced_indices(projection@, group_by@, referenced@),
{
    let mut indices: Vec<usize> = Vec::new();
    let mut i: usize = 0;
    while i < projection.len()
        invariant
            i <= projection@.len(),
            forall|x: usize| indices@.contains(x) <==> spec_items_read(projection@, i as int, x),
        decreases projection@.len() - i,
    {
        let ghost before = indices@;
        collect_expr_column_indices(&projection[i].expr, &mut indices);
        proof {
            let read = spec_expr_indices(projection@[i as int].expr);
            assert forall|x: usize| indices@.contains(x) <==> spec_items_read(projection@, i + 1, x) by {
                if indices@.contains(x) {
                    let k = choose|k: int| 0 <= k < indices@.len() && indices@[k] == x;
                    if k < before.len() {
                        assert(before[k] == x);
                        assert(before.contains(x));
                        let j = choose|j: int| 0 <= j < i && spec_expr_indices((#[trigger] projection@[j]).expr).contains(x);
                        assert(spec_expr_indices(projection@[j].expr).contains(x));
                    } else {
                        assert(read[k - before.len()] == x);
                        assert(read.contains(x));
                        assert(spec_expr_indices(projection@[i as int].expr).contains(x));
                    }
                }
                if spec_items_read(projection@, i + 1, x) {
                    let j = choose|j: int| 0 <= j < i + 1 && spec_expr_indices((#[trigger] projection@[j]).expr).contains(x);
                    if j < i {
                        assert(before.contains(x));
                        let k = choose|k: int| 0 <= k < before.len() && before[k] == x;
                        assert(indices@[k] == x);
                    } else {
                        let k = choose|k: int| 0 <= k < read.len() && read[k] == x;
                        assert(indices@[before.len() + k] == x);
                    }
                }
            }
        }
        i = i + 1;
    }
    let mut g: usize = 0;
    while g < group_by.len()
        invariant
            i == projection@.len(),
            g <= group_by@.len(),
            forall|x: usize|
                indices@.contains(x) <==> (spec_items_read(projection@, i as int, x) || spec_exprs_read(
                    group_by@,
                    g as int,
                    x,
                )),
        decreases group_by@.len() - g,
    {
        let ghost before = indices@;
        collect_expr_column_indices(&group_by[g], &mut indices);
        proof {
            let read = spec_expr_indices(group_by@[g as int]);
            assert forall|x: usize|
                indices@.contains(x) <==> (spec_items_read(projection@, i as int, x) || spec_exprs_read(
                    group_by@,
                    g + 1,
                    x,
                )) by {
                if indices@.contains(x) {
                    let k = choose|k: int| 0 <= k < indices@.len() && indices@[k] == x;
                    if k < before.len() {
                        assert(before[k] == x);
                        assert(before.contains(x));
                        if spec_exprs_read(group_by@, g as int, x) {
                            let j = choose|j: int| 0 <= j < g && spec_expr_indices(#[trigger] group_by@[j]).contains(x);
                            assert(spec_expr_indices(group_by@[j]).contains(x));
                        }
                    } else {
                        assert(read[k - before.len()] == x);
                        assert(read.contains(x));
                        assert(spec_expr_indices(group_by@[g as int]).contains(x));
                    }
                }
                if spec_exprs_read(group_by@, g + 1, x) {
                    let j = choose|j: int| 0 <= j < g + 1 && spec_expr_indices(#[trigger] group_by@[j]).contains(x);
                    if j < g {
                        assert(spec_exprs_read(group_by@, g as int, x));
                        assert(before.contains(x));
                        let k = choose|k: int| 0 <= k < before.len() && before[k] == x;
                        assert(indices@[k] == x);
                    } else {
                        let k = choose|k: int| 0 <= k < read.len() && read[k] == x;
                        assert(indices@[before.len() + k] == x);
                    }
                }
                if spec_items_read(projection@, i as int, x) {
                    assert(before.contains(x));
                    let k = choose|k: int| 0 <= k < before.len() && before[k] == x;
                    assert(indices@[k] == x);
                }
            }
        }
        g = g + 1;
    }
    sorted_distinct(&indices)
}

/// Scan columns for the referenced table columns, in the order given.
fn build_scan_columns(table: &ResolvedTable, referenced: &[usize]) -> (columns: Vec<ScanColumn>)
    requires
        forall|i: int| 0 <= i < referenced@.len() ==> #[trigger] referenced@[i] < table.columns@.len(),
    ensures
        columns@.len() == referenced@.len(),
        forall|i: int|
            0 <= i < referenced@.len() ==> {
                &&& (#[trigger] columns@[i]).table_index == referenced@[i]
                &&& columns@[i].name@ == table.columns@[referenced@[i] as int].name@
                &&& columns@[i].data_type == table.columns@[referenced@[i] as int].data_type
            },
{
    let mut columns: Vec<ScanColumn> = Vec::new();
    let mut i: usize = 0;
    while i < referenced.len()
        invariant
            i <= referenced@.len(),
            columns@.len() == i,
            forall|k: int| 0 <= k < referenced@.len() ==> #[trigger] referenced@[k] < table.columns@.len(),
            forall|k: int|
                0 <= k < i ==> {
                    &&& (#[trigger] columns@[k]).table_index == referenced@[k]
                    &&& columns@[k].name@ == table.columns@[referenced@[k] as int].name@
                    &&& columns@[k].data_type == table.columns@[referenced@[k] as int].data_type
                },
        decreases referenced@.len() - i,
    {
        let table_index = referenced[i];
        let column = &table.columns[table_index];
        columns.push(ScanColumn { name: column.name.clone(), table_index, data_type: column.data_type });
        i = i + 1;
    }
    columns
}

/// Scan positions of the grouping columns, in grouping order.
fn build_group_keys(group_by: &[ResolvedExpr], referenced: &[usize]) -> (keys: Vec<ColumnRef>)
    requires
        forall|i: int|
            0 <= i < group_by@.len() ==> (#[trigger] group_by@[i] matches ResolvedExpr::Column(c) && referenced@.contains(
                c.index,
            )),
    ensures
        keys@.len() == group_by@.len(),
        forall|i: int|
            0 <= i < group_by@.len() ==> spec_position(
                referenced@,
                group_by@[i]->Column_0.index,
                (#[trigger] keys@[i]).index as int,
            ),
{
    let mut keys: Vec<ColumnRef> = Vec::new();
    let mut i: usize = 0;
    while i < group_by.len()
        invariant
            i <= group_by@.len(),
            keys@.len() == i,
            forall|k: int|
                0 <= k < group_by@.len() ==> (#[trigger] group_by@[k] matches ResolvedExpr::Column(c)
                    && referenced@.contains(c.index)),
            forall|k: int|
                0 <= k < i ==> spec_position(
                    referenced@,
                    group_by@[k]->Column_0.index,
                    (#[trigger] keys@[k]).index as int,
                ),
        decreases group_by@.len() - i,
    {
        match &group_by[i] {
            ResolvedExpr::Column(column) => {
                keys.push(remap_to_scan_index(column.index, referenced));
            },
            ResolvedExpr::Aggregate(_) => {
                assert(false);
            },
        }
        i = i + 1;
    }
    keys
}

/// One more projection item adds its aggregate, if it has one, to the
/// aggregate items.
proof fn lemma_aggregate_items_step(projection: Seq<ResolvedSelectItem>, i: int)
    requires
        0 <= i < projection.len(),
    ensures
        spec_aggregate_items(projection.take(i + 1)) == match projection[i].expr {
            ResolvedExpr::Aggregate(aggregate) => spec_aggregate_items(projection.take(i)).push(aggregate),
            ResolvedExpr::Column(_) => spec_aggregate_items(projection.take(i)),
        },
{
    assert(projection.take(i + 1).drop_last() =~= projection.take(i));
    assert(projection.take(i + 1).last() == projection[i]);
}

/// The logical aggregates of the projection's aggregate items, in order,
/// with inputs remapped to scan positions.
fn build_aggregates(projection: &[ResolvedSelectItem], referenced: &[usize]) -> (aggregates: Vec<AggregateExpr>)
    requires
        forall|i: int| 0 <= i < projection@.len() ==> spec_reads_within(#[trigger] projection@[i].expr, referenced@),
    ensures
        aggregates@.len() == spec_aggregate_items(projection@).len(),
        forall|j: int|
            0 <= j < aggregates@.len() ==> spec_remapped_function(
                spec_aggregate_items(projection@)[j].function,
                (#[trigger] aggregates@[j]).function,
                referenced@,
            ),
{
    let mut aggregates: Vec<AggregateExpr> = Vec::new();
    let mut i: usize = 0;
    while i < projection.len()
        invariant
            i <= projection@.len(),
            forall|k: int| 0 <= k < projection@.len() ==> spec_reads_within(#[trigger] projection@[k].expr, referenced@),
            aggregates@.len() == spec_aggregate_items(projection@.take(i as int)).len(),
            forall|j: int|
                0 <= j < aggregates@.len() ==> spec_remapped_function(
                    spec_aggregate_items(projection@.take(i as int))[j].function,
                    (#[trigger] aggregates@[j]).function,
                    referenced@,
                ),
        decreases projection@.len() - i,
    {
        proof {
            lemma_aggregate_items_step(projection@, i as int);
            assert(spec_reads_within(projection@[i as int].expr, referenced@));
        }
        match &projection[i].expr {
            ResolvedExpr::Column(_) => {},
            ResolvedExpr::Aggregate(aggregate) => {
                let function = match &aggregate.function {
                    ResolvedAggregateFunction::CountStar => AggregateFunction::CountStar,
                    ResolvedAggregateFunction::Count { column } => {
                        assert(spec_expr_indices(projection@[i as int].expr)[0] == column.index);
                        AggregateFunction::Count { input: remap_to_scan_index(column.index, referenced) }
                    },
                    ResolvedAggregateFunction::Avg { column } => {
                        assert(spec_expr_indices(projection@[i as int].expr)[0] == column.index);
                        AggregateFunction::Avg { input: remap_to_scan_index(column.index, referenced) }
                    },
                };
                aggregates.push(AggregateExpr { function });
            },
        }
        i = i + 1;
    }
    assert(projection@.take(projection@.len() as int) =~= projection@);
    aggregates
}

/// Projection over an aggregate node: a plain column reads the first group
/// key that is that column; the k-th aggregate item reads output
/// `group_key_count + k`.
fn build_aggregate_projection(
    projection: Vec<ResolvedSelectItem>,
    group_by: &[ResolvedExpr],
    group_key_count: usize,
) -> (expressions: Vec<ProjectionExpr>)
    requires
        group_key_count + projection@.len() <= usize::MAX,
        forall|i: int|
            0 <= i < projection@.len() ==> ((#[trigger] projection@[i]).expr matches ResolvedExpr::Column(c)
                ==> spec_grouped_by(group_by@, c.index)),
    ensures
        expressions@.len() == projection@.len(),
        forall|i: int|
            0 <= i < projection@.len() ==> {
                &&& (#[trigger] expressions@[i]).alias == projection@[i].alias
                &&& match projection@[i].expr {
                    ResolvedExpr::Column(c) => spec_first_group_position(
                        group_by@,
                        c.index,
                        expressions@[i].input.index as int,
                    ),
                    ResolvedExpr::Aggregate(_) => expressions@[i].input.index == group_key_count
                        + spec_aggregates_before(projection@, i),
                }
            },
{
    let ghost items = projection@;
    let mut expressions: Vec<ProjectionExpr> = Vec::new();
    let mut aggregate_ordinal: usize = 0;
    let mut i: usize = 0;
    for item in it: projection
        invariant
            items == projection@,
            it.seq() == items,
            i == it.index(),
            i <= items.len(),
            expressions@.len() == i,
            aggregate_ordinal == spec_aggregates_before(items, i as int),
            aggregate_ordinal <= i,
            group_key_count + items.len() <= usize::MAX,
            forall|k: int|
                0 <= k < items.len() ==> ((#[trigger] items[k]).expr matches ResolvedExpr::Column(c)
                    ==> spec_grouped_by(group_by@, c.index)),
            forall|k: int|
                0 <= k < i ==> {
                    &&& (#[trigger] expressions@[k]).alias == items[k].alias
                    &&& match items[k].expr {
                        ResolvedExpr::Column(c) => spec_first_group_position(
                            group_by@,
                            c.index,
                            expressions@[k].input.index as int,
                        ),
                        ResolvedExpr::Aggregate(_) => expressions@[k].input.index == group_key_count
                            + spec_aggregates_before(items, k),
                    }
                },
    {
        assert(item == items[i as int]);
        let output_index = match &item.expr {
            ResolvedExpr::Column(column) => find_group_key_position(column, group_by),
            ResolvedExpr::Aggregate(_) => {
                let index = group_key_count + aggregate_ordinal;
                aggregate_ordinal = aggregate_ordinal + 1;
                index
            },
        };
        expressions.push(ProjectionExpr { input: ColumnRef { index: output_index }, alias: item.alias });
        i = i + 1;
    }
    expressions
}

/// Projection straight over the scan, for a query without aggregates or
/// grouping: every item is a column, read at its scan position.
fn build_simple_query(
    projection: Vec<ResolvedSelectItem>,
    table_scan: LogicalPlan,
    referenced: &[usize],
) -> (plan: LogicalPlan)
    requires
        forall|i: int|
            0 <= i < projection@.len() ==> ((#[trigger] projection@[i]).expr matches ResolvedExpr::Column(c)
                && referenced@.contains(c.index)),
    ensures
        match plan {
            LogicalPlan::Projection { expressions, input } => {
                &&& *input == table_scan
                &&& expressions@.len() == projection@.len()
                &&& forall|i: int|
                    0 <= i < projection@.len() ==> {
                        &&& (#[trigger] expressions@[i]).alias == projection@[i].alias
                        &&& spec_position(
                            referenced@,
                            projection@[i].expr->Column_0.index,
                            expressions@[i].input.index as int,
                        )
                    }
            },
            _ => false,
        },
{
    let ghost items = projection@;
    assert(items.len() == projection.len());
    let mut expressions: Vec<ProjectionExpr> = Vec::new();
    let mut i: usize = 0;
    for item in it: projection
        invariant
            items == projection@,
            it.seq() == items,
            i == it.index(),
            i <= items.len(),
            expressions@.len() == i,
            items.len() <= usize::MAX,
            forall|k: int|
                0 <= k < items.len() ==> ((#[trigger] items[k]).expr matches ResolvedExpr::Column(c)
                    && referenced@.contains(c.index)),
            forall|k: int|
                0 <= k < i ==> {
                    &&& (#[trigger] expressions@[k]).alias == items[k].alias
                    &&& spec_position(referenced@, items[k].expr->Column_0.index, expressions@[k].input.index as int)
                },
    {
        assert(item == items[i as int]);
        match item.expr {
            ResolvedExpr::Column(column) => {
                expressions.push(
                    ProjectionExpr { input: remap_to_scan_index(column.index, referenced), alias: item.alias },
                );
            },
            ResolvedExpr::Aggregate(_) => {
                assert(false);
            },
        }
        i = i + 1;
    }
    LogicalPlan::Projection { expressions, input: Box::new(table_scan) }
}

/// Projection over an aggregate node over the scan.
fn build_aggregate_query(
    projection: Vec<ResolvedSelectItem>,
    group_by: Vec<ResolvedExpr>,
    table_scan: LogicalPlan,
    referenced: &[usize],
) -> (plan: LogicalPlan)
    requires
        group_by@.len() + projection@.len() <= usize::MAX,
        forall|i: int| 0 <= i < projection@.len() ==> spec_reads_within(#[trigger] projection@[i].expr, referenced@),
        forall|i: int|
            0 <= i < group_by@.len() ==> (#[trigger] group_by@[i] matches ResolvedExpr::Column(c) && referenced@.contains(
                c.index,
            )),
        forall|i: int|
            0 <= i < projection@.len() ==> ((#[trigger] projection@[i]).expr matches ResolvedExpr::Column(c)
                ==> spec_grouped_by(group_by@, c.index)),
    ensures
        match plan {
            LogicalPlan::Projection { expressions, input } => {
                &&& expressions@.len() == projection@.len()
                &&& forall|i: int| 0 <= i < projection@.len() ==> (#[trigger] expressions@[i]).alias == projection@[i].alias
                &&& spec_aggregate_planned(projection@, group_by@, referenced@, expressions@, *input)
                &&& input.spec_input() == table_scan
            },
            _ => false,
        },
{
    let group_keys = build_group_keys(group_by.as_slice(), referenced);
    let aggregates = build_aggregates(projection.as_slice(), referenced);
    let group_key_count = group_keys.len();
    let aggregate = LogicalPlan::Aggregate { group_keys, aggregates, input: Box::new(table_scan) };
    let ghost items = projection@;
    let expressions = build_aggregate_projection(projection, group_by.as_slice(), group_key_count);
    LogicalPlan::Projection { expressions, input: Box::new(aggregate) }
}

/// Builds the logical plan of a resolved `SELECT`.
fn build_select(projection: Vec<ResolvedSelectItem>, from: ResolvedTable, group_by: Vec<ResolvedExpr>) -> (plan: LogicalPlan)
    requires
        spec_plannable(projection@, from, group_by@),
        group_by@.len() + projection@.len() <= usize::MAX,
    ensures
        spec_planned(projection@, from, group_by@, plan),
{
    let referenced = collect_referenced_indices(projection.as_slice(), group_by.as_slice());
    proof {
        assert forall|i: int| 0 <= i < referenced@.len() implies #[trigger] referenced@[i] < from.columns@.len() by {
            let x = referenced@[i];
            assert(referenced@.contains(x));
            if spec_items_read(projection@, projection@.len() as int, x) {
                let j = choose|j: int| 0 <= j < projection@.len() && spec_expr_indices((#[trigger] projection@[j]).expr).contains(x);
                assert(spec_columns_below(projection@[j].expr, from.columns@.len()));
                let k = choose|k: int| 0 <= k < spec_expr_indices(projection@[j].expr).len() && spec_expr_indices(projection@[j].expr)[k] == x;
            } else {
                let j = choose|j: int| 0 <= j < group_by@.len() && spec_expr_indices(#[trigger] group_by@[j]).contains(x);
                assert(spec_columns_below(group_by@[j], from.columns@.len()));
                let k = choose|k: int| 0 <= k < spec_expr_indices(group_by@[j]).len() && spec_expr_indices(group_by@[j])[k] == x;
            }
        }
        assert forall|i: int| 0 <= i < projection@.len() implies spec_reads_within(#[trigger] projection@[i].expr, referenced@) by {
            assert forall|k: int| 0 <= k < spec_expr_indices(projection@[i].expr).len() implies referenced@.contains(
                #[trigger] spec_expr_indices(projection@[i].expr)[k],
            ) by {
                let x = spec_expr_indices(projection@[i].expr)[k];
                assert(spec_expr_indices(projection@[i].expr).contains(x));
                assert(spec_items_read(projection@, projection@.len() as int, x));
            }
        }
        assert forall|i: int| 0 <= i < group_by@.len() implies (#[trigger] group_by@[i] matches ResolvedExpr::Column(c)
            && referenced@.contains(c.index)) by {
            let x = spec_expr_indices(group_by@[i])[0];
            assert(spec_expr_indices(group_by@[i]).contains(x));
            assert(spec_exprs_read(group_by@, group_by@.len() as int, x));
        }
    }
    let scan_columns = build_scan_columns(&from, referenced.as_slice());
    let table_scan = LogicalPlan::TableScan { table_id: from.id, table_name: from.name, columns: scan_columns };
    let ghost scan = table_scan;
    assert(spec_scan_of(scan, from, referenced@));
    let mut has_aggregates = false;
    let mut i: usize = 0;
    while i < projection.len()
        invariant
            i <= projection@.len(),
            has_aggregates <==> exists|k: int| 0 <= k < i && spec_is_aggregate(#[trigger] projection@[k].expr),
        decreases projection@.len() - i,
    {
        if is_aggregate(&projection[i].expr) {
            has_aggregates = true;
        }
        i = i + 1;
    }
    let needs_aggregate = has_aggregates || group_by.len() > 0;
    let ghost proj = projection@;
    let ghost groups = group_by@;
    if needs_aggregate {
        let plan = build_aggregate_query(projection, group_by, table_scan, referenced.as_slice());
        assert(spec_planned_over(proj, from, groups, referenced@, plan));
        plan
    } else {
        proof {
            assert forall|i: int| 0 <= i < proj.len() implies ((#[trigger] proj[i]).expr matches ResolvedExpr::Column(c)
                && referenced@.contains(c.index)) by {
                assert(!spec_is_aggregate(proj[i].expr));
                assert(spec_reads_within(proj[i].expr, referenced@));
                assert(referenced@.contains(spec_expr_indices(proj[i].expr)[0]));
            }
        }
        let plan = build_simple_query(projection, table_scan, referenced.as_slice());
        assert(spec_planned_over(proj, from, groups, referenced@, plan));
        plan
    }
}

/// Builds the logical plan of a resolved query.
pub fn build_plan(resolved: ResolvedPlan) -> (plan: LogicalPlan)
    requires
        match resolved {
            ResolvedPlan::Select { projection, from, group_by } => {
                &&& spec_plannable(projection@, from, group_by@)
                &&& group_by@.len() + projection@.len() <= usize::MAX
            },
        },
    ensures
        match resolved {
            ResolvedPlan::Select { projection, from, group_by } => spec_planned(projection@, from, group_by@, plan),
        },
{
    let ResolvedPlan::Select { projection, from, group_by } = resolved;
    build_select(projection, from, group_by)
}

/// Default name of a projection item's output column: the column's name,
/// or `count`, `count(col)` or `avg(col)` for an aggregate.
pub open spec fn spec_item_name(expression: ResolvedExpr, from: ResolvedTable) -> Seq<char> {
    match expression {
        ResolvedExpr::Column(c) => from.columns@[c.index as int].name@,
        ResolvedExpr::Aggregate(aggregate) => match aggregate.function {
            ResolvedAggregateFunction::CountStar => seq!['c', 'o', 'u', 'n', 't'],
            ResolvedAggregateFunction::Count { column } => seq!['c', 'o', 'u', 'n', 't', '(']
                + from.columns@[column.index as int].name@ + seq![')'],
            ResolvedAggregateFunction::Avg { column } => seq!['a', 'v', 'g', '(']
                + from.columns@[column.index as int].name@ + seq![')'],
        },
    }
}

/// Type of a projection item's output column: the column's type, `U64` for
/// counts and `F64` for averages.
pub open spec fn spec_item_type(expression: ResolvedExpr, from: ResolvedTable) -> DataTypeKind {
    match expression {
        ResolvedExpr::Column(c) => from.columns@[c.index as int].data_type,
        ResolvedExpr::Aggregate(aggregate) => match aggregate.function {
            ResolvedAggregateFunction::Avg { .. } => DataTypeKind::F64,
            _ => DataTypeKind::U64,
        },
    }
}

/// The output column of a projection item: its alias, or else its default
/// name, and its type.
pub open spec fn spec_item_view(item: ResolvedSelectItem, from: ResolvedTable) -> ColumnView {
    (
        match item.alias {
            Some(alias) => alias@,
            None => spec_item_name(item.expr, from),
        },
        spec_item_type(item.expr, from),
    )
}

/// The aggregate items of a prefix of the projection number the aggregates
/// before it.
proof fn lemma_aggregate_items_len(projection: Seq<ResolvedSelectItem>, n: int)
    requires
        0 <= n <= projection.len(),
    ensures
        spec_aggregate_items(projection.take(n)).len() == spec_aggregates_before(projection, n),
    decreases n,
{
    if n > 0 {
        lemma_aggregate_items_len(projection, n - 1);
        lemma_aggregate_items_step(projection, n - 1);
    } else {
        assert(projection.take(0) =~= Seq::<ResolvedSelectItem>::empty());
    }
}

/// The aggregate items of a shorter prefix are a prefix of those of a longer
/// one.
proof fn lemma_aggregate_items_prefix(projection: Seq<ResolvedSelectItem>, n: int, m: int)
    requires
        0 <= n <= m <= projection.len(),
    ensures
        spec_aggregate_items(projection.take(n)).len() <= spec_aggregate_items(projection.take(m)).len(),
        forall|k: int|
            0 <= k < spec_aggregate_items(projection.take(n)).len() ==> spec_aggregate_items(projection.take(m))[k]
                == #[trigger] spec_aggregate_items(projection.take(n))[k],
    decreases m - n,
{
    if n < m {
        lemma_aggregate_items_prefix(projection, n, m - 1);
        lemma_aggregate_items_step(projection, m - 1);
    }
}

/// The aggregate of projection item `i` is aggregate item number
/// `spec_aggregates_before(projection, i)`.
proof fn lemma_aggregate_item_at(projection: Seq<ResolvedSelectItem>, i: int)
    requires
        0 <= i < projection.len(),
        projection[i].expr is Aggregate,
    ensures
        spec_aggregates_before(projection, i) < spec_aggregate_items(projection).len(),
        spec_aggregate_items(projection)[spec_aggregates_before(projection, i) as int]
            == projection[i].expr->Aggregate_0,
{
    lemma_aggregate_items_len(projection, i);
    lemma_aggregate_items_step(projection, i);
    lemma_aggregate_items_prefix(projection, i + 1, projection.len() as int);
    assert(projection.take(projection.len() as int) =~= projection);
    let k = spec_aggregates_before(projection, i) as int;
    assert(spec_aggregate_items(projection.take(i + 1))[k] == projection[i].expr->Aggregate_0);
}

/// The plan built for a plannable query has at most three levels
/// (projection, aggregate, scan), a well-formed output schema, and one output
/// column per selected item: the item's alias or default name, with the
/// item's type.
pub proof fn lemma_planned_output(
    projection: Seq<ResolvedSelectItem>,
    from: ResolvedTable,
    group_by: Seq<ResolvedExpr>,
    plan: LogicalPlan,
)
    requires
        spec_plannable(projection, from, group_by),
        spec_planned(projection, from, group_by, plan),
    ensures
        plan.spec_depth() <= 3,
        plan.spec_output() == Some(Seq::new(projection.len(), |i: int| spec_item_view(projection[i], from))),
{
    let referenced = choose|referenced: Seq<usize>|
        #[trigger] spec_referenced_indices(projection, group_by, referenced) && spec_planned_over(
            projection,
            from,
            group_by,
            referenced,
            plan,
        );
    let expected = Seq::new(projection.len(), |i: int| spec_item_view(projection[i], from));
    match plan {
        LogicalPlan::Projection { expressions, input } => {
            if spec_needs_aggregate(projection, group_by) {
                let scan = input.spec_input();
                let scan_out = scan.spec_output().unwrap();
                match *input {
                    LogicalPlan::Aggregate { group_keys, aggregates, input: scan_box } => {
                        assert(*scan_box == scan);
                        let items = spec_aggregate_items(projection);
                        let agg_out = spec_aggregate_output(group_keys@, aggregates@, scan_out);
                        assert(scan_out.len() == referenced.len());
                        assert forall|j: int| 0 <= j < aggregates@.len() implies spec_aggregate_in_range(
                            (#[trigger] aggregates@[j]).function,
                            scan_out.len(),
                        ) by {
                            assert(spec_remapped_function(items[j].function, aggregates@[j].function, referenced));
                        }
                        assert(input.spec_output() == Some(agg_out));
                        assert forall|i: int| 0 <= i < expressions@.len() implies (#[trigger] expressions@[i]).input.index
                            < agg_out.len() by {
                            match projection[i].expr {
                                ResolvedExpr::Column(c) => {
                                    assert(spec_first_group_position(group_by, c.index, expressions@[i].input.index as int));
                                },
                                ResolvedExpr::Aggregate(_) => {
                                    lemma_aggregate_item_at(projection, i);
                                },
                            }
                        }
                        let out = plan.spec_output().unwrap();
                        assert forall|i: int| 0 <= i < projection.len() implies #[trigger] out[i] == expected[i] by {
                            let e = expressions@[i];
                            match projection[i].expr {
                                ResolvedExpr::Column(c) => {
                                    let p = e.input.index as int;
                                    assert(spec_first_group_position(group_by, c.index, p));
                                    assert(agg_out[p] == scan_out[group_keys@[p].index as int]);
                                    assert(spec_position(referenced, group_by[p]->Column_0.index, group_keys@[p].index as int));
                                },
                                ResolvedExpr::Aggregate(aggregate) => {
                                    lemma_aggregate_item_at(projection, i);
                                    let k = spec_aggregates_before(projection, i) as int;
                                    assert(agg_out[group_keys@.len() + k] == (
                                        spec_aggregate_name(aggregates@[k].function, scan_out),
                                        spec_aggregate_type(aggregates@[k].function),
                                    ));
                                    assert(spec_remapped_function(items[k].function, aggregates@[k].function, referenced));
                                },
                            }
                        }
                        assert(out =~= expected);
                        assert(scan.spec_depth() == 1);
                        assert(input.spec_depth() == 2);
                    },
                    _ => {},
                }
            } else {
                let scan_out = input.spec_output().unwrap();
                assert forall|i: int| 0 <= i < expressions@.len() implies (#[trigger] expressions@[i]).input.index
                    < scan_out.len() by {
                    assert(spec_position(referenced, projection[i].expr->Column_0.index, expressions@[i].input.index as int));
                }
                let out = plan.spec_output().unwrap();
                assert forall|i: int| 0 <= i < projection.len() implies #[trigger] out[i] == expected[i] by {
                    assert(!spec_is_aggregate(projection[i].expr));
                    assert(spec_position(referenced, projection[i].expr->Column_0.index, expressions@[i].input.index as int));
                }
                assert(out =~= expected);
                assert(input.spec_depth() == 1);
            }
        },
        _ => {},
    }
}

} // verus!
