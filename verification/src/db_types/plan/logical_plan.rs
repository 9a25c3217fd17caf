//! Logical plans: trees of relational operators.
use vstd::prelude::*;

use crate::db_core::dtype::DataTypeKind;
use crate::text::{push_char, string_of};
use crate::render::push_str;

verus! {

pub const PLAN_DEPTH_LIMIT: usize = 4;

/// A tree of relational algebra operators.
///
/// Each node produces a well-defined output schema. Child nodes
/// are referenced via `Box<LogicalPlan>`. Column references
/// within a node use positional indices into the child's output
/// schema.
///
/// Plan tree depth is bounded by construction: `build_plan`
/// produces trees of at most 3 levels
/// (Projection -> Aggregate -> TableScan).
#[derive(Debug, PartialEq, Eq)]
pub enum LogicalPlan {
    /// Leaf node: reads specific columns from a table.
    TableScan { table_id: u32, table_name: String, columns: Vec<ScanColumn> },
    /// Selects, reorders, and aliases columns from its input.
    Projection { expressions: Vec<ProjectionExpr>, input: Box<LogicalPlan> },
    /// Groups rows by key columns and computes aggregate
    /// functions. Output schema: group keys (in order) then
    /// aggregate results (in order).
    Aggregate { group_keys: Vec<ColumnRef>, aggregates: Vec<AggregateExpr>, input: Box<LogicalPlan> },
}

/// An aggregate function application.
#[derive(Debug, Clone, PartialEq, Eq)]
pub struct AggregateExpr {
    pub function: AggregateFunction,
}

/// Concrete aggregate function with input column references.
#[derive(Debug, Clone, PartialEq, Eq)]
pub enum AggregateFunction {
    CountStar,
    Count { input: ColumnRef },
    Avg { input: ColumnRef },
}

/// Reference to a column in a plan node's output, by position.
#[derive(Debug, Clone, Copy, PartialEq, Eq)]
pub struct ColumnRef {
    pub index: usize,
}

/// Metadata about a column in a plan node's output.
#[derive(Debug, Clone, PartialEq, Eq)]
pub struct OutputColumn {
    pub name: String,
    pub data_type: DataTypeKind,
}

/// An expression within a projection node.
#[derive(Debug, Clone, PartialEq, Eq)]
pub struct ProjectionExpr {
    pub input: ColumnRef,
    pub alias: Option<String>,
}

/// A column read from a table during a scan.
#[derive(Debug, Clone, PartialEq, Eq)]
pub struct ScanColumn {
    pub name: String,
    pub table_index: usize,
    pub data_type: DataTypeKind,
}

/// A column of a plan's output schema: its name and type.
pub type ColumnView = (Seq<char>, DataTypeKind);

/// Name and type of each output column.
pub open spec fn spec_column_views(columns: Seq<OutputColumn>) -> Seq<ColumnView> {
    columns.map_values(|c: OutputColumn| (c.name@, c.data_type))
}

/// Output schema of a table scan.
pub open spec fn spec_scan_output(columns: Seq<ScanColumn>) -> Seq<ColumnView> {
    columns.map_values(|c: ScanColumn| (c.name@, c.data_type))
}

/// The column that a projection expression produces from its input schema.
pub open spec fn spec_projected(e: ProjectionExpr, input: Seq<ColumnView>) -> ColumnView {
    let source = input[e.input.index as int];
    (
        match e.alias {
            Some(alias) => alias@,
            None => source.0,
        },
        source.1,
    )
}

/// Whether an aggregate's input column exists in an input schema of `len`
/// columns.
pub open spec fn spec_aggregate_in_range(function: AggregateFunction, len: nat) -> bool {
    match function {
        AggregateFunction::CountStar => true,
        AggregateFunction::Count { input } => input.index < len,
        AggregateFunction::Avg { input } => input.index < len,
    }
}

/// Name of an aggregate's output column: `count`, `count(col)` or `avg(col)`.
pub open spec fn spec_aggregate_name(function: AggregateFunction, input: Seq<ColumnView>) -> Seq<char> {
    match function {
        AggregateFunction::CountStar => seq!['c', 'o', 'u', 'n', 't'],
        AggregateFunction::Count { input: r } => seq!['c', 'o', 'u', 'n', 't', '('] + input[r.index as int].0
            + seq![')'],
        AggregateFunction::Avg { input: r } => seq!['a', 'v', 'g', '('] + input[r.index as int].0 + seq![')'],
    }
}

/// Type of an aggregate's result: counts are `U64`, averages `F64`.
pub open spec fn spec_aggregate_type(function: AggregateFunction) -> DataTypeKind {
    match function {
        AggregateFunction::CountStar | AggregateFunction::Count { .. } => DataTypeKind::U64,
        AggregateFunction::Avg { .. } => DataTypeKind::F64,
    }
}

/// Output schema of an aggregate node over the given input schema.
pub open spec fn spec_aggregate_output(
    group_keys: Seq<ColumnRef>,
    aggregates: Seq<AggregateExpr>,
    input: Seq<ColumnView>,
) -> Seq<ColumnView> {
    group_keys.map_values(|k: ColumnRef| input[k.index as int]) + aggregates.map_values(
        |a: AggregateExpr| (spec_aggregate_name(a.function, input), spec_aggregate_type(a.function)),
    )
}

impl LogicalPlan {
    /// Number of nodes from this one down to the leaf scan.
    pub open spec fn spec_depth(self) -> nat
        decreases self,
    {
        match self {
            LogicalPlan::TableScan { .. } => 1,
            LogicalPlan::Projection { input, .. } => 1 + input.spec_depth(),
            LogicalPlan::Aggregate { input, .. } => 1 + input.spec_depth(),
        }
    }

    /// The output schema, or `None` when a column reference points outside
    /// its input's schema.
    pub open spec fn spec_output(self) -> Option<Seq<ColumnView>>
        decreases self,
    {
        match self {
            LogicalPlan::TableScan { columns, .. } => Some(spec_scan_output(columns@)),
            LogicalPlan::Projection { expressions, input } => match input.spec_output() {
                None => None,
                Some(inp) => if forall|i: int|
                    0 <= i < expressions@.len() ==> (#[trigger] expressions@[i]).input.index < inp.len() {
                    Some(expressions@.map_values(|e: ProjectionExpr| spec_projected(e, inp)))
                } else {
                    None
                },
            },
            LogicalPlan::Aggregate { group_keys, aggregates, input } => match input.spec_output() {
                None => None,
                Some(inp) => if (forall|i: int|
                    0 <= i < group_keys@.len() ==> (#[trigger] group_keys@[i]).index < inp.len()) && (forall|i: int|
                    0 <= i < aggregates@.len() ==> spec_aggregate_in_range(
                        (#[trigger] aggregates@[i]).function,
                        inp.len(),
                    )) {
                    Some(spec_aggregate_output(group_keys@, aggregates@, inp))
                } else {
                    None
                },
            },
        }
    }

    /// The node `k` levels below this one.
    pub open spec fn spec_descendant(self, k: nat) -> LogicalPlan
        decreases k,
    {
        if k == 0 {
            self
        } else {
            match self {
                LogicalPlan::TableScan { .. } => self,
                LogicalPlan::Projection { input, .. } => input.spec_descendant((k - 1) as nat),
                LogicalPlan::Aggregate { input, .. } => input.spec_descendant((k - 1) as nat),
            }
        }
    }

    /// A node's direct input, for nodes that have one.
    pub open spec fn spec_input(self) -> LogicalPlan {
        match self {
            LogicalPlan::TableScan { .. } => self,
            LogicalPlan::Projection { input, .. } => *input,
            LogicalPlan::Aggregate { input, .. } => *input,
        }
    }
}

/// Descending one more level is taking the input of the current descendant.
pub proof fn lemma_descendant_step(plan: LogicalPlan, k: nat)
    requires
        k + 1 < plan.spec_depth(),
    ensures
        plan.spec_descendant(k + 1) == plan.spec_descendant(k).spec_input(),
        plan.spec_descendant(k).spec_depth() == plan.spec_depth() - k,
        !(plan.spec_descendant(k) is TableScan),
    decreases k,
{
    match plan {
        LogicalPlan::TableScan { .. } => {
            assert(plan.spec_depth() == 1);
        },
        LogicalPlan::Projection { input, .. } => {
            assert(plan.spec_descendant(k + 1) == input.spec_descendant(k));
            if k > 0 {
                lemma_descendant_step(*input, (k - 1) as nat);
                assert(plan.spec_descendant(k) == input.spec_descendant((k - 1) as nat));
            } else {
                assert(input.spec_descendant(0) == *input);
            }
        },
        LogicalPlan::Aggregate { input, .. } => {
            assert(plan.spec_descendant(k + 1) == input.spec_descendant(k));
            if k > 0 {
                lemma_descendant_step(*input, (k - 1) as nat);
                assert(plan.spec_descendant(k) == input.spec_descendant((k - 1) as nat));
            } else {
                assert(input.spec_descendant(0) == *input);
            }
        },
    }
}

/// Every plan has at least one node.
pub proof fn lemma_depth_positive(plan: LogicalPlan)
    ensures
        plan.spec_depth() >= 1,
    decreases plan,
{
    match plan {
        LogicalPlan::TableScan { .. } => {},
        LogicalPlan::Projection { input, .. } => {
            lemma_depth_positive(*input);
        },
        LogicalPlan::Aggregate { input, .. } => {
            lemma_depth_positive(*input);
        },
    }
}

/// Depth of descendants, and the deepest descendant is the scan.
pub proof fn lemma_descendant_depth(plan: LogicalPlan, k: nat)
    requires
        k < plan.spec_depth(),
    ensures
        plan.spec_descendant(k).spec_depth() == plan.spec_depth() - k,
        k == plan.spec_depth() - 1 ==> plan.spec_descendant(k) is TableScan,
    decreases k,
{
    match plan {
        LogicalPlan::TableScan { .. } => {
            assert(plan.spec_depth() == 1);
        },
        LogicalPlan::Projection { input, .. } => {
            lemma_depth_positive(*input);
            if k > 0 {
                lemma_descendant_depth(*input, (k - 1) as nat);
                assert(plan.spec_descendant(k) == input.spec_descendant((k - 1) as nat));
            }
        },
        LogicalPlan::Aggregate { input, .. } => {
            lemma_depth_positive(*input);
            if k > 0 {
                lemma_descendant_depth(*input, (k - 1) as nat);
                assert(plan.spec_descendant(k) == input.spec_descendant((k - 1) as nat));
            }
        },
    }
}

/// A plan with a well-formed output schema has well-formed descendants.
pub proof fn lemma_descendant_output(plan: LogicalPlan, k: nat)
    requires
        plan.spec_output() is Some,
    ensures
        plan.spec_descendant(k).spec_output() is Some,
    decreases k,
{
    if k > 0 {
        match plan {
            LogicalPlan::TableScan { .. } => {},
            LogicalPlan::Projection { input, .. } => {
                lemma_descendant_output(*input, (k - 1) as nat);
            },
            LogicalPlan::Aggregate { input, .. } => {
                lemma_descendant_output(*input, (k - 1) as nat);
            },
        }
    }
}

impl LogicalPlan {
    /// Iteratively computes the output schema by walking the
    /// plan chain bottom-up. Bounded by PLAN_DEPTH_LIMIT.
    pub fn output_columns(&self) -> (columns: Vec<OutputColumn>)
        requires
            self.spec_output() is Some,
            self.spec_depth() <= PLAN_DEPTH_LIMIT,
        ensures
            spec_column_views(columns@) == self.spec_output().unwrap(),
    {
        let chain = collect_plan_chain(self);
        let n = chain.len();
        let mut columns: Vec<OutputColumn> = Vec::new();
        let mut j: usize = n;
        while j > 0
            invariant
                n == chain@.len(),
                n == self.spec_depth(),
                n >= 1,
                self.spec_output() is Some,
                0 <= j <= n,
                forall|k: int| 0 <= k < n ==> *chain@[k] == #[trigger] self.spec_descendant(k as nat),
                j < n ==> spec_column_views(columns@) == chain@[j as int].spec_output().unwrap(),
            decreases j,
        {
            let node = chain[j - 1];
            proof {
                lemma_descendant_output(*self, (j - 1) as nat);
                lemma_descendant_depth(*self, (j - 1) as nat);
                if j < n {
                    lemma_descendant_step(*self, (j - 1) as nat);
                }
            }
            columns = match node {
                LogicalPlan::TableScan { columns: scan_columns, .. } => output_columns_table_scan(
                    scan_columns.as_slice(),
                ),
                LogicalPlan::Projection { expressions, .. } => output_columns_projection(
                    expressions.as_slice(),
                    columns.as_slice(),
                ),
                LogicalPlan::Aggregate { group_keys, aggregates, .. } => output_columns_aggregate(
                    group_keys.as_slice(),
                    aggregates.as_slice(),
                    columns.as_slice(),
                ),
            };
            j = j - 1;
        }
        let ghost zero: int = 0;
        assert(*chain@[zero] == self.spec_descendant(zero as nat));
        assert(self.spec_descendant(0) == *self);
        columns
    }
}

impl AggregateExpr {
    pub fn output_name(&self, input_columns: &[OutputColumn]) -> (name: String)
        requires
            spec_aggregate_in_range(self.function, input_columns@.len()),
        ensures
            name@ == spec_aggregate_name(self.function, spec_column_views(input_columns@)),
    {
        match self.function {
            AggregateFunction::CountStar => {
                proof {
                    reveal_strlit("count");
                }
                string_of("count")
            },
            AggregateFunction::Count { input } => {
                let mut name = string_of("count(");
                push_str(&mut name, input_columns[input.index].name.as_str());
                push_char(&mut name, ')');
                proof {
                    reveal_strlit("count(");
                    assert(name@ =~= spec_aggregate_name(self.function, spec_column_views(input_columns@)));
                }
                name
            },
            AggregateFunction::Avg { input } => {
                let mut name = string_of("avg(");
                push_str(&mut name, input_columns[input.index].name.as_str());
                push_char(&mut name, ')');
                proof {
                    reveal_strlit("avg(");
                    assert(name@ =~= spec_aggregate_name(self.function, spec_column_views(input_columns@)));
                }
                name
            },
        }
    }

    pub fn output_type(&self) -> (kind: DataTypeKind)
        ensures
            kind == spec_aggregate_type(self.function),
    {
        match self.function {
            AggregateFunction::CountStar | AggregateFunction::Count { .. } => DataTypeKind::U64,
            AggregateFunction::Avg { .. } => DataTypeKind::F64,
        }
    }
}

/// Collects plan nodes from root to leaf. Bounded iteration
/// prevents unbounded traversal if the tree is malformed.
fn collect_plan_chain(root: &LogicalPlan) -> (chain: Vec<&LogicalPlan>)
    requires
        root.spec_depth() <= PLAN_DEPTH_LIMIT,
    ensures
        chain@.len() == root.spec_depth(),
        forall|k: int| 0 <= k < chain@.len() ==> *chain@[k] == #[trigger] root.spec_descendant(k as nat),
{
    let mut chain: Vec<&LogicalPlan> = Vec::new();
    let mut current = root;
    let mut i: usize = 0;
    proof {
        lemma_descendant_depth(*root, 0);
    }
    loop
        invariant
            0 <= i < root.spec_depth(),
            root.spec_depth() <= PLAN_DEPTH_LIMIT,
            chain@.len() == i,
            *current == root.spec_descendant(i as nat),
            current.spec_depth() == root.spec_depth() - i,
            forall|k: int| 0 <= k < i ==> *chain@[k] == #[trigger] root.spec_descendant(k as nat),
        decreases PLAN_DEPTH_LIMIT - i,
    {
        chain.push(current);
        match current {
            LogicalPlan::TableScan { .. } => {
                return chain;
            },
            LogicalPlan::Projection { input, .. } | LogicalPlan::Aggregate { input, .. } => {
                proof {
                    assert(current.spec_depth() == 1 + input.spec_depth());
                    lemma_descendant_step(*root, i as nat);
                }
                current = input;
            },
        }
        i = i + 1;
    }
}

fn output_columns_aggregate(
    group_keys: &[ColumnRef],
    aggregates: &[AggregateExpr],
    input_columns: &[OutputColumn],
) -> (output: Vec<OutputColumn>)
    requires
        forall|i: int| 0 <= i < group_keys@.len() ==> (#[trigger] group_keys@[i]).index < input_columns@.len(),
        forall|i: int|
            0 <= i < aggregates@.len() ==> spec_aggregate_in_range(
                (#[trigger] aggregates@[i]).function,
                input_columns@.len(),
            ),
    ensures
        spec_column_views(output@) == spec_aggregate_output(
            group_keys@,
            aggregates@,
            spec_column_views(input_columns@),
        ),
{
    let ghost input = spec_column_views(input_columns@);
    let mut output: Vec<OutputColumn> = Vec::new();
    let mut i: usize = 0;
    while i < group_keys.len()
        invariant
            input == spec_column_views(input_columns@),
            forall|i: int| 0 <= i < group_keys@.len() ==> (#[trigger] group_keys@[i]).index < input_columns@.len(),
            0 <= i <= group_keys@.len(),
            output@.len() == i,
            forall|k: int| 0 <= k < i ==> ((#[trigger] output@[k]).name@, output@[k].data_type) == input[group_keys@[k].index as int],
        decreases group_keys.len() - i,
    {
        let source = &input_columns[group_keys[i].index];
        let column = OutputColumn { name: source.name.clone(), data_type: source.data_type };
        let ghost before = output@;
        output.push(column);
        assert(output@ == before.push(column));
        assert(input[group_keys@[i as int].index as int] == (source.name@, source.data_type));
        i = i + 1;
    }
    let ghost keys_part = group_keys@.map_values(|k: ColumnRef| input[k.index as int]);
    let ghost key_count = output@.len();
    assert(spec_column_views(output@) =~= keys_part);
    let mut j: usize = 0;
    while j < aggregates.len()
        invariant
            input == spec_column_views(input_columns@),
            forall|i: int|
                0 <= i < aggregates@.len() ==> spec_aggregate_in_range(
                    (#[trigger] aggregates@[i]).function,
                    input_columns@.len(),
                ),
            0 <= j <= aggregates@.len(),
            key_count == group_keys@.len(),
            keys_part.len() == key_count,
            output@.len() == key_count + j,
            forall|k: int| 0 <= k < key_count ==> ((#[trigger] output@[k]).name@, output@[k].data_type) == keys_part[k],
            forall|k: int| 0 <= k < j ==> ((#[trigger] output@[key_count + k]).name@, output@[key_count + k].data_type) == (spec_aggregate_name(aggregates@[k].function, input), spec_aggregate_type(aggregates@[k].function)),
        decreases aggregates.len() - j,
    {
        let aggregate = &aggregates[j];
        let column = OutputColumn {
            name: aggregate.output_name(input_columns),
            data_type: aggregate.output_type(),
        };
        let ghost before = output@;
        output.push(column);
        assert(output@ == before.push(column));
        assert(output@[key_count + j] == column);
        j = j + 1;
    }
    let ghost expected = spec_aggregate_output(group_keys@, aggregates@, input);
    assert forall|i: int| 0 <= i < output@.len() implies #[trigger] spec_column_views(output@)[i] == expected[i] by {
        if i >= key_count {
            let k = i - key_count;
            assert(output@[key_count + k] == output@[i]);
        }
    }
    assert(spec_column_views(output@) =~= expected);
    output
}

fn output_columns_projection(
    expressions: &[ProjectionExpr],
    input_columns: &[OutputColumn],
) -> (output: Vec<OutputColumn>)
    requires
        forall|i: int| 0 <= i < expressions@.len() ==> (#[trigger] expressions@[i]).input.index < input_columns@.len(),
    ensures
        spec_column_views(output@) == expressions@.map_values(
            |e: ProjectionExpr| spec_projected(e, spec_column_views(input_columns@)),
        ),
{
    let ghost input = spec_column_views(input_columns@);
    let mut output: Vec<OutputColumn> = Vec::new();
    let mut i: usize = 0;
    while i < expressions.len()
        invariant
            input == spec_column_views(input_columns@),
            forall|i: int| 0 <= i < expressions@.len() ==> (#[trigger] expressions@[i]).input.index < input_columns@.len(),
            0 <= i <= expressions@.len(),
            output@.len() == i,
            forall|k: int| 0 <= k < i ==> (#[trigger] output@[k]).name@ == spec_projected(expressions@[k], input).0 && output@[k].data_type == spec_projected(expressions@[k], input).1,
        decreases expressions.len() - i,
    {
        let projection = &expressions[i];
        let source = &input_columns[projection.input.index];
        let name = match &projection.alias {
            Some(alias) => alias.clone(),
            None => source.name.clone(),
        };
        let ghost before = output@;
        let column = OutputColumn { name, data_type: source.data_type };
        output.push(column);
        assert(output@ == before.push(column));
        assert(input[projection.input.index as int] == (source.name@, source.data_type));
        i = i + 1;
    }
    assert(spec_column_views(output@) =~= expressions@.map_values(|e: ProjectionExpr| spec_projected(e, input)));
    output
}

fn output_columns_table_scan(columns: &[ScanColumn]) -> (output: Vec<OutputColumn>)
    ensures
        spec_column_views(output@) == spec_scan_output(columns@),
{
    let mut output: Vec<OutputColumn> = Vec::new();
    let mut i: usize = 0;
    while i < columns.len()
        invariant
            0 <= i <= columns@.len(),
            output@.len() == i,
            forall|k: int| 0 <= k < i ==> (#[trigger] output@[k]).name@ == columns@[k].name@ && output@[k].data_type == columns@[k].data_type,
        decreases columns.len() - i,
    {
        let scan_column = &columns[i];
        let ghost before = output@;
        let column = OutputColumn { name: scan_column.name.clone(), data_type: scan_column.data_type };
        output.push(column);
        assert(output@ == before.push(column));
        i = i + 1;
    }
    assert(spec_column_views(output@) =~= spec_scan_output(columns@));
    output
}

} // verus!
