//! Parsed SQL: the part of a parsed statement's syntax tree that translation
//! reads, as plain values, and the reading of that part out of the tree that
//! the `sqlparser` crate makes of a text.
use vstd::prelude::*;

use crate::db_sql::syntax::{
    arg_parts, argument_list, argument_list_parts, arguments_kind, expr_parts, flavor_kind, function_parts, group_by_parts,
    parse_sql_text, parser_error_text, query_parts, select_item_parts, select_parts, set_expr_select,
    sql_statement_count, statement_query, table_factor_name, table_with_joins_parts, ArgParts, ArgumentListParts, ArgumentsKind,
    ExprParts, FlavorKind, FunctionParts, GroupByParts, QueryParts, SelectItemParts, SelectParts,
};
use sqlparser::ast::{Expr, FunctionArg, Query, Select, SelectItem, Statement, TableWithJoins};

verus! {

/// A parsed SQL statement.
pub struct ParsedStatement(pub SqlStatement);

/// Query clauses besides the body, in the order the query declares them.
#[derive(Debug, Clone, Copy, PartialEq, Eq, Structural)]
pub enum QueryClause {
    With,
    OrderBy,
    Limit,
    Fetch,
    Locks,
    For,
    Settings,
    Format,
    PipeOperators,
}

/// `SELECT` clauses besides the projection, `FROM` and `GROUP BY`, in the
/// order the select declares them; `Flavor` stands for a non-standard
/// flavor.
#[derive(Debug, Clone, Copy, PartialEq, Eq, Structural)]
pub enum SelectClause {
    OptimizerHint,
    Distinct,
    SelectModifiers,
    Top,
    Exclude,
    Into,
    LateralViews,
    Prewhere,
    Where,
    ConnectBy,
    ClusterBy,
    DistributeBy,
    SortBy,
    Having,
    NamedWindow,
    Qualify,
    ValueTableMode,
    Flavor,
}

/// Parts of a function call besides its name and arguments, in the order
/// the call declares them.
#[derive(Debug, Clone, Copy, PartialEq, Eq, Structural)]
pub enum FunctionClause {
    OdbcSyntax,
    Parameters,
    Filter,
    NullTreatment,
    Over,
    WithinGroup,
}

/// Parts of an argument list besides the arguments.
#[derive(Debug, Clone, Copy, PartialEq, Eq, Structural)]
pub enum ArgumentListClause {
    DuplicateTreatment,
    Clauses,
}

/// A statement: a query or something else.
pub enum SqlStatement {
    Query(SqlQuery),
    Other,
}

/// A query: the clauses present besides its body, and the body.
pub struct SqlQuery {
    pub clauses: Vec<QueryClause>,
    pub body: SqlSetExpr,
}

/// A query body: a `SELECT` or something else.
pub enum SqlSetExpr {
    Select(SqlSelect),
    Other,
}

/// A `SELECT`: the clauses present besides the ones it is made of, its
/// projection, `FROM` and `GROUP BY`.
pub struct SqlSelect {
    pub clauses: Vec<SelectClause>,
    pub projection: Vec<SqlSelectItem>,
    pub from: Vec<SqlTableWithJoins>,
    pub group_by: SqlGroupBy,
}

/// A projection item.
pub enum SqlSelectItem {
    UnnamedExpr(SqlExpr),
    ExprWithAlias { expr: SqlExpr, alias: String },
    Other,
}

/// An expression: an identifier, a function call, or something else.
pub enum SqlExpr {
    Identifier(String),
    Function(SqlFunction),
    Other,
}

/// A function call: its name as written, the clauses present besides the
/// arguments, and the arguments.
pub struct SqlFunction {
    pub name: String,
    pub clauses: Vec<FunctionClause>,
    pub args: SqlFunctionArguments,
}

/// Function arguments: a parenthesized list, or something else.
pub enum SqlFunctionArguments {
    List { clauses: Vec<ArgumentListClause>, args: Vec<SqlFunctionArg> },
    Other,
}

/// One argument: an unnamed `*`, an unnamed expression, or something else.
pub enum SqlFunctionArg {
    UnnamedWildcard,
    UnnamedExpr(SqlExpr),
    Other,
}

/// A `FROM` entry: the relation and whether joins follow it.
pub struct SqlTableWithJoins {
    pub relation: SqlTableFactor,
    pub has_joins: bool,
}

/// A relation: a named table, or something else.
pub enum SqlTableFactor {
    Table(String),
    Other,
}

/// `GROUP BY`: expressions, with or without modifiers, or `ALL`.
pub enum SqlGroupBy {
    Expressions { expressions: Vec<SqlExpr>, has_modifiers: bool },
    All,
}

/// Why a text gives no statement to translate.
#[derive(Debug)]
pub enum ParseError {
    /// The parser refused the text, with its message.
    Syntax(String),
    /// The text holds this many statements, not one.
    StatementCount(usize),
}

/// How deeply expressions are read: the parser refuses texts nested more
/// than 50 levels deep, far below this bound.
pub const EXPR_DEPTH_LIMIT: usize = 4096;

/// `acc` followed by `clause` where `present` holds.
pub open spec fn spec_if_present<C>(acc: Seq<C>, present: bool, clause: C) -> Seq<C> {
    if present {
        acc.push(clause)
    } else {
        acc
    }
}

/// The clauses of a query besides its body that are present, in the order
/// the query declares them.
pub open spec fn spec_query_clauses(q: QueryParts) -> Seq<QueryClause> {
    let s = spec_if_present(Seq::empty(), q.with is Some, QueryClause::With);
    let s = spec_if_present(s, q.order_by is Some, QueryClause::OrderBy);
    let s = spec_if_present(s, q.limit_clause is Some, QueryClause::Limit);
    let s = spec_if_present(s, q.fetch is Some, QueryClause::Fetch);
    let s = spec_if_present(s, q.locks@.len() > 0, QueryClause::Locks);
    let s = spec_if_present(s, q.for_clause is Some, QueryClause::For);
    let s = spec_if_present(s, q.settings is Some, QueryClause::Settings);
    let s = spec_if_present(s, q.format_clause is Some, QueryClause::Format);
    spec_if_present(s, q.pipe_operators@.len() > 0, QueryClause::PipeOperators)
}

/// The clauses of a select besides its projection, `FROM` and `GROUP BY`
/// that are present, in the order the select declares them; a flavor other
/// than the standard one counts last.
pub open spec fn spec_select_clauses(p: SelectParts, flavor: FlavorKind) -> Seq<SelectClause> {
    spec_select_trailing_clauses(spec_select_leading_clauses(p), p, flavor)
}

/// `acc` followed by the clauses of a select after its `WHERE` that are
/// present, in order.
pub open spec fn spec_select_trailing_clauses(acc: Seq<SelectClause>, p: SelectParts, flavor: FlavorKind) -> Seq<
    SelectClause,
> {
    let s = spec_if_present(acc, p.connect_by@.len() > 0, SelectClause::ConnectBy);
    let s = spec_if_present(s, p.cluster_by@.len() > 0, SelectClause::ClusterBy);
    let s = spec_if_present(s, p.distribute_by@.len() > 0, SelectClause::DistributeBy);
    let s = spec_if_present(s, p.sort_by@.len() > 0, SelectClause::SortBy);
    let s = spec_if_present(s, p.having is Some, SelectClause::Having);
    let s = spec_if_present(s, p.named_window@.len() > 0, SelectClause::NamedWindow);
    let s = spec_if_present(s, p.qualify is Some, SelectClause::Qualify);
    let s = spec_if_present(s, p.value_table_mode is Some, SelectClause::ValueTableMode);
    spec_if_present(s, !(flavor is Standard), SelectClause::Flavor)
}

/// The clauses of a select up to its `WHERE` that are present, in order.
pub open spec fn spec_select_leading_clauses(p: SelectParts) -> Seq<SelectClause> {
    let s = spec_if_present(Seq::empty(), p.optimizer_hints@.len() > 0, SelectClause::OptimizerHint);
    let s = spec_if_present(s, p.distinct is Some, SelectClause::Distinct);
    let s = spec_if_present(s, p.select_modifiers is Some, SelectClause::SelectModifiers);
    let s = spec_if_present(s, p.top is Some, SelectClause::Top);
    let s = spec_if_present(s, p.exclude is Some, SelectClause::Exclude);
    let s = spec_if_present(s, p.into is Some, SelectClause::Into);
    let s = spec_if_present(s, p.lateral_views@.len() > 0, SelectClause::LateralViews);
    let s = spec_if_present(s, p.prewhere is Some, SelectClause::Prewhere);
    spec_if_present(s, p.selection is Some, SelectClause::Where)
}

/// The clauses of a function call besides its name and arguments that are
/// present, in the order the call declares them; `parameters` is the
/// variant of its parameter list.
pub open spec fn spec_function_clauses(f: FunctionParts, parameters: ArgumentsKind) -> Seq<FunctionClause> {
    let s = spec_if_present(Seq::empty(), f.uses_odbc_syntax, FunctionClause::OdbcSyntax);
    let s = spec_if_present(s, !(parameters is Absent), FunctionClause::Parameters);
    let s = spec_if_present(s, f.filter is Some, FunctionClause::Filter);
    let s = spec_if_present(s, f.null_treatment is Some, FunctionClause::NullTreatment);
    let s = spec_if_present(s, f.over is Some, FunctionClause::Over);
    spec_if_present(s, f.within_group@.len() > 0, FunctionClause::WithinGroup)
}

/// The clauses of an argument list besides its arguments that are present.
pub open spec fn spec_argument_list_clauses(l: ArgumentListParts) -> Seq<ArgumentListClause> {
    let s = spec_if_present(Seq::empty(), l.duplicate_treatment is Some, ArgumentListClause::DuplicateTreatment);
    spec_if_present(s, l.clauses@.len() > 0, ArgumentListClause::Clauses)
}

/// Appending a clause of a later kind keeps the clauses ordered by kind,
/// and adds that clause exactly when it is present.
proof fn lemma_clause_step<C>(acc: Seq<C>, present: bool, clause: C, rank: spec_fn(C) -> int)
    requires
        forall|i: int, j: int| 0 <= i < j < acc.len() ==> rank(#[trigger] acc[i]) < rank(#[trigger] acc[j]),
        forall|i: int| 0 <= i < acc.len() ==> rank(#[trigger] acc[i]) < rank(clause),
    ensures
        forall|i: int, j: int|
            0 <= i < j < spec_if_present(acc, present, clause).len() ==> rank(
                #[trigger] spec_if_present(acc, present, clause)[i],
            ) < rank(#[trigger] spec_if_present(acc, present, clause)[j]),
        forall|i: int|
            0 <= i < spec_if_present(acc, present, clause).len() ==> rank(
                #[trigger] spec_if_present(acc, present, clause)[i],
            ) <= rank(clause),
{
}

/// A clause is among those after a step exactly when it was before, or it
/// is the step's clause and present.
proof fn lemma_clause_member<C>(acc: Seq<C>, present: bool, clause: C, x: C)
    ensures
        spec_if_present(acc, present, clause).contains(x) <==> (acc.contains(x) || (present && x == clause)),
{
    let result = spec_if_present(acc, present, clause);
    if present {
        if acc.contains(x) {
            let k = choose|k: int| 0 <= k < acc.len() && acc[k] == x;
            assert(result[k] == x);
        }
        if x == clause {
            assert(result[acc.len() as int] == x);
        }
        if result.contains(x) {
            let k = choose|k: int| 0 <= k < result.len() && result[k] == x;
            if k < acc.len() {
                assert(acc[k] == x);
            }
        }
    }
}

/// Position of a kind of query clause in the order its clauses are declared.
pub open spec fn spec_query_rank(clause: QueryClause) -> int {
    match clause {
        QueryClause::With => 0,
        QueryClause::OrderBy => 1,
        QueryClause::Limit => 2,
        QueryClause::Fetch => 3,
        QueryClause::Locks => 4,
        QueryClause::For => 5,
        QueryClause::Settings => 6,
        QueryClause::Format => 7,
        QueryClause::PipeOperators => 8,
    }
}

/// Whether the query has a clause of kind `clause`: its field is set, or
/// its list is not empty.
pub open spec fn spec_query_present(p: QueryParts, clause: QueryClause) -> bool {
    match clause {
        QueryClause::With => p.with is Some,
        QueryClause::OrderBy => p.order_by is Some,
        QueryClause::Limit => p.limit_clause is Some,
        QueryClause::Fetch => p.fetch is Some,
        QueryClause::Locks => p.locks@.len() > 0,
        QueryClause::For => p.for_clause is Some,
        QueryClause::Settings => p.settings is Some,
        QueryClause::Format => p.format_clause is Some,
        QueryClause::PipeOperators => p.pipe_operators@.len() > 0,
    }
}

/// The clauses read from a query are exactly the kinds of clause it has,
/// each once, in the order they are declared: a query with a `LIMIT`
/// lists `Limit`, and one without does not.

#[verifier::rlimit(80)]
pub proof fn lemma_query_clauses_are_those_present(p: QueryParts)
    ensures
        forall|c: QueryClause| spec_query_clauses(p).contains(c) <==> spec_query_present(p, c),
        forall|i: int, j: int|
            0 <= i < j < spec_query_clauses(p).len() ==> spec_query_rank(#[trigger] spec_query_clauses(p)[i]) < spec_query_rank(
                #[trigger] spec_query_clauses(p)[j],
            ),
{
    let s0 = Seq::<QueryClause>::empty();
    let s1 = spec_if_present(s0, p.with is Some, QueryClause::With);
    lemma_clause_step(s0, p.with is Some, QueryClause::With, |c: QueryClause| spec_query_rank(c));
    let s2 = spec_if_present(s1, p.order_by is Some, QueryClause::OrderBy);
    lemma_clause_step(s1, p.order_by is Some, QueryClause::OrderBy, |c: QueryClause| spec_query_rank(c));
    let s3 = spec_if_present(s2, p.limit_clause is Some, QueryClause::Limit);
    lemma_clause_step(s2, p.limit_clause is Some, QueryClause::Limit, |c: QueryClause| spec_query_rank(c));
    let s4 = spec_if_present(s3, p.fetch is Some, QueryClause::Fetch);
    lemma_clause_step(s3, p.fetch is Some, QueryClause::Fetch, |c: QueryClause| spec_query_rank(c));
    let s5 = spec_if_present(s4, p.locks@.len() > 0, QueryClause::Locks);
    lemma_clause_step(s4, p.locks@.len() > 0, QueryClause::Locks, |c: QueryClause| spec_query_rank(c));
    let s6 = spec_if_present(s5, p.for_clause is Some, QueryClause::For);
    lemma_clause_step(s5, p.for_clause is Some, QueryClause::For, |c: QueryClause| spec_query_rank(c));
    let s7 = spec_if_present(s6, p.settings is Some, QueryClause::Settings);
    lemma_clause_step(s6, p.settings is Some, QueryClause::Settings, |c: QueryClause| spec_query_rank(c));
    let s8 = spec_if_present(s7, p.format_clause is Some, QueryClause::Format);
    lemma_clause_step(s7, p.format_clause is Some, QueryClause::Format, |c: QueryClause| spec_query_rank(c));
    let s9 = spec_if_present(s8, p.pipe_operators@.len() > 0, QueryClause::PipeOperators);
    lemma_clause_step(s8, p.pipe_operators@.len() > 0, QueryClause::PipeOperators, |c: QueryClause| spec_query_rank(c));
    assert(spec_query_clauses(p) == s9);
    assert forall|c: QueryClause| s9.contains(c) <==> spec_query_present(p, c) by {
        lemma_clause_member(s0, p.with is Some, QueryClause::With, c);
        lemma_clause_member(s1, p.order_by is Some, QueryClause::OrderBy, c);
        lemma_clause_member(s2, p.limit_clause is Some, QueryClause::Limit, c);
        lemma_clause_member(s3, p.fetch is Some, QueryClause::Fetch, c);
        lemma_clause_member(s4, p.locks@.len() > 0, QueryClause::Locks, c);
        lemma_clause_member(s5, p.for_clause is Some, QueryClause::For, c);
        lemma_clause_member(s6, p.settings is Some, QueryClause::Settings, c);
        lemma_clause_member(s7, p.format_clause is Some, QueryClause::Format, c);
        lemma_clause_member(s8, p.pipe_operators@.len() > 0, QueryClause::PipeOperators, c);
        match c {
            QueryClause::With => {},
            QueryClause::OrderBy => {},
            QueryClause::Limit => {},
            QueryClause::Fetch => {},
            QueryClause::Locks => {},
            QueryClause::For => {},
            QueryClause::Settings => {},
            QueryClause::Format => {},
            QueryClause::PipeOperators => {},
        }
    }
}

/// Position of a kind of select clause in the order its clauses are declared.
pub open spec fn spec_select_rank(clause: SelectClause) -> int {
    match clause {
        SelectClause::OptimizerHint => 0,
        SelectClause::Distinct => 1,
        SelectClause::SelectModifiers => 2,
        SelectClause::Top => 3,
        SelectClause::Exclude => 4,
        SelectClause::Into => 5,
        SelectClause::LateralViews => 6,
        SelectClause::Prewhere => 7,
        SelectClause::Where => 8,
        SelectClause::ConnectBy => 9,
        SelectClause::ClusterBy => 10,
        SelectClause::DistributeBy => 11,
        SelectClause::SortBy => 12,
        SelectClause::Having => 13,
        SelectClause::NamedWindow => 14,
        SelectClause::Qualify => 15,
        SelectClause::ValueTableMode => 16,
        SelectClause::Flavor => 17,
    }
}

/// Whether the select has a clause of kind `clause`: its field is set, or
/// its list is not empty.
pub open spec fn spec_select_present(p: SelectParts, flavor: FlavorKind, clause: SelectClause) -> bool {
    match clause {
        SelectClause::OptimizerHint => p.optimizer_hints@.len() > 0,
        SelectClause::Distinct => p.distinct is Some,
        SelectClause::SelectModifiers => p.select_modifiers is Some,
        SelectClause::Top => p.top is Some,
        SelectClause::Exclude => p.exclude is Some,
        SelectClause::Into => p.into is Some,
        SelectClause::LateralViews => p.lateral_views@.len() > 0,
        SelectClause::Prewhere => p.prewhere is Some,
        SelectClause::Where => p.selection is Some,
        SelectClause::ConnectBy => p.connect_by@.len() > 0,
        SelectClause::ClusterBy => p.cluster_by@.len() > 0,
        SelectClause::DistributeBy => p.distribute_by@.len() > 0,
        SelectClause::SortBy => p.sort_by@.len() > 0,
        SelectClause::Having => p.having is Some,
        SelectClause::NamedWindow => p.named_window@.len() > 0,
        SelectClause::Qualify => p.qualify is Some,
        SelectClause::ValueTableMode => p.value_table_mode is Some,
        SelectClause::Flavor => !(flavor is Standard),
    }
}

/// The clauses read from a select are exactly the kinds of clause it has,
/// each once, in the order they are declared; a flavor other than the
/// standard one counts as a clause.

/// The clauses of a select up to its `WHERE` are exactly the kinds among
/// the first nine that it has, in declaration order.
#[verifier::rlimit(80)]
proof fn lemma_select_leading_clauses_present(p: SelectParts, flavor: FlavorKind)
    ensures
        forall|c: SelectClause|
            spec_select_leading_clauses(p).contains(c) <==> (spec_select_rank(c) < 9 && spec_select_present(
                p,
                flavor,
                c,
            )),
        forall|i: int, j: int|
            0 <= i < j < spec_select_leading_clauses(p).len() ==> spec_select_rank(#[trigger] spec_select_leading_clauses(p)[i]) < spec_select_rank(
                #[trigger] spec_select_leading_clauses(p)[j],
            ),
        forall|i: int|
            0 <= i < spec_select_leading_clauses(p).len() ==> spec_select_rank(
                #[trigger] spec_select_leading_clauses(p)[i],
            ) < 9,
{
    let s0 = Seq::<SelectClause>::empty();
    let s1 = spec_if_present(s0, p.optimizer_hints@.len() > 0, SelectClause::OptimizerHint);
    lemma_clause_step(s0, p.optimizer_hints@.len() > 0, SelectClause::OptimizerHint, |c: SelectClause| spec_select_rank(c));
    let s2 = spec_if_present(s1, p.distinct is Some, SelectClause::Distinct);
    lemma_clause_step(s1, p.distinct is Some, SelectClause::Distinct, |c: SelectClause| spec_select_rank(c));
    let s3 = spec_if_present(s2, p.select_modifiers is Some, SelectClause::SelectModifiers);
    lemma_clause_step(s2, p.select_modifiers is Some, SelectClause::SelectModifiers, |c: SelectClause| spec_select_rank(c));
    let s4 = spec_if_present(s3, p.top is Some, SelectClause::Top);
    lemma_clause_step(s3, p.top is Some, SelectClause::Top, |c: SelectClause| spec_select_rank(c));
    let s5 = spec_if_present(s4, p.exclude is Some, SelectClause::Exclude);
    lemma_clause_step(s4, p.exclude is Some, SelectClause::Exclude, |c: SelectClause| spec_select_rank(c));
    let s6 = spec_if_present(s5, p.into is Some, SelectClause::Into);
    lemma_clause_step(s5, p.into is Some, SelectClause::Into, |c: SelectClause| spec_select_rank(c));
    let s7 = spec_if_present(s6, p.lateral_views@.len() > 0, SelectClause::LateralViews);
    lemma_clause_step(s6, p.lateral_views@.len() > 0, SelectClause::LateralViews, |c: SelectClause| spec_select_rank(c));
    let s8 = spec_if_present(s7, p.prewhere is Some, SelectClause::Prewhere);
    lemma_clause_step(s7, p.prewhere is Some, SelectClause::Prewhere, |c: SelectClause| spec_select_rank(c));
    let s9 = spec_if_present(s8, p.selection is Some, SelectClause::Where);
    lemma_clause_step(s8, p.selection is Some, SelectClause::Where, |c: SelectClause| spec_select_rank(c));
    assert(spec_select_leading_clauses(p) == s9);
    assert forall|c: SelectClause| s9.contains(c) <==> (spec_select_rank(c) < 9 && spec_select_present(p, flavor, c)) by {
        lemma_clause_member(s0, p.optimizer_hints@.len() > 0, SelectClause::OptimizerHint, c);
        lemma_clause_member(s1, p.distinct is Some, SelectClause::Distinct, c);
        lemma_clause_member(s2, p.select_modifiers is Some, SelectClause::SelectModifiers, c);
        lemma_clause_member(s3, p.top is Some, SelectClause::Top, c);
        lemma_clause_member(s4, p.exclude is Some, SelectClause::Exclude, c);
        lemma_clause_member(s5, p.into is Some, SelectClause::Into, c);
        lemma_clause_member(s6, p.lateral_views@.len() > 0, SelectClause::LateralViews, c);
        lemma_clause_member(s7, p.prewhere is Some, SelectClause::Prewhere, c);
        lemma_clause_member(s8, p.selection is Some, SelectClause::Where, c);
        match c {
            SelectClause::OptimizerHint => {},
            SelectClause::Distinct => {},
            SelectClause::SelectModifiers => {},
            SelectClause::Top => {},
            SelectClause::Exclude => {},
            SelectClause::Into => {},
            SelectClause::LateralViews => {},
            SelectClause::Prewhere => {},
            SelectClause::Where => {},
            SelectClause::ConnectBy => {},
            SelectClause::ClusterBy => {},
            SelectClause::DistributeBy => {},
            SelectClause::SortBy => {},
            SelectClause::Having => {},
            SelectClause::NamedWindow => {},
            SelectClause::Qualify => {},
            SelectClause::ValueTableMode => {},
            SelectClause::Flavor => {},
        }
    }
}

/// The clauses after a select's `WHERE` extend clauses of earlier kinds
/// with exactly the later kinds it has, keeping declaration order.
#[verifier::rlimit(80)]
proof fn lemma_select_trailing_clauses_present(acc: Seq<SelectClause>, p: SelectParts, flavor: FlavorKind)
    requires
        forall|i: int, j: int| 0 <= i < j < acc.len() ==> spec_select_rank(#[trigger] acc[i]) < spec_select_rank(#[trigger] acc[j]),
        forall|i: int| 0 <= i < acc.len() ==> spec_select_rank(#[trigger] acc[i]) < 9,
    ensures
        forall|c: SelectClause|
            spec_select_trailing_clauses(acc, p, flavor).contains(c) <==> (acc.contains(c) || (9 <= spec_select_rank(c)
                && spec_select_present(p, flavor, c))),
        forall|i: int, j: int|
            0 <= i < j < spec_select_trailing_clauses(acc, p, flavor).len() ==> spec_select_rank(
                #[trigger] spec_select_trailing_clauses(acc, p, flavor)[i],
            ) < spec_select_rank(#[trigger] spec_select_trailing_clauses(acc, p, flavor)[j]),
{
    let s9 = acc;
    let s10 = spec_if_present(s9, p.connect_by@.len() > 0, SelectClause::ConnectBy);
    lemma_clause_step(s9, p.connect_by@.len() > 0, SelectClause::ConnectBy, |c: SelectClause| spec_select_rank(c));
    let s11 = spec_if_present(s10, p.cluster_by@.len() > 0, SelectClause::ClusterBy);
    lemma_clause_step(s10, p.cluster_by@.len() > 0, SelectClause::ClusterBy, |c: SelectClause| spec_select_rank(c));
    let s12 = spec_if_present(s11, p.distribute_by@.len() > 0, SelectClause::DistributeBy);
    lemma_clause_step(s11, p.distribute_by@.len() > 0, SelectClause::DistributeBy, |c: SelectClause| spec_select_rank(c));
    let s13 = spec_if_present(s12, p.sort_by@.len() > 0, SelectClause::SortBy);
    lemma_clause_step(s12, p.sort_by@.len() > 0, SelectClause::SortBy, |c: SelectClause| spec_select_rank(c));
    let s14 = spec_if_present(s13, p.having is Some, SelectClause::Having);
    lemma_clause_step(s13, p.having is Some, SelectClause::Having, |c: SelectClause| spec_select_rank(c));
    let s15 = spec_if_present(s14, p.named_window@.len() > 0, SelectClause::NamedWindow);
    lemma_clause_step(s14, p.named_window@.len() > 0, SelectClause::NamedWindow, |c: SelectClause| spec_select_rank(c));
    let s16 = spec_if_present(s15, p.qualify is Some, SelectClause::Qualify);
    lemma_clause_step(s15, p.qualify is Some, SelectClause::Qualify, |c: SelectClause| spec_select_rank(c));
    let s17 = spec_if_present(s16, p.value_table_mode is Some, SelectClause::ValueTableMode);
    lemma_clause_step(s16, p.value_table_mode is Some, SelectClause::ValueTableMode, |c: SelectClause| spec_select_rank(c));
    let s18 = spec_if_present(s17, !(flavor is Standard), SelectClause::Flavor);
    lemma_clause_step(s17, !(flavor is Standard), SelectClause::Flavor, |c: SelectClause| spec_select_rank(c));
    assert(spec_select_trailing_clauses(acc, p, flavor) == s18);
    assert forall|c: SelectClause| s18.contains(c) <==> (acc.contains(c) || (9 <= spec_select_rank(c) && spec_select_present(p, flavor, c))) by {
        lemma_clause_member(s9, p.connect_by@.len() > 0, SelectClause::ConnectBy, c);
        lemma_clause_member(s10, p.cluster_by@.len() > 0, SelectClause::ClusterBy, c);
        lemma_clause_member(s11, p.distribute_by@.len() > 0, SelectClause::DistributeBy, c);
        lemma_clause_member(s12, p.sort_by@.len() > 0, SelectClause::SortBy, c);
        lemma_clause_member(s13, p.having is Some, SelectClause::Having, c);
        lemma_clause_member(s14, p.named_window@.len() > 0, SelectClause::NamedWindow, c);
        lemma_clause_member(s15, p.qualify is Some, SelectClause::Qualify, c);
        lemma_clause_member(s16, p.value_table_mode is Some, SelectClause::ValueTableMode, c);
        lemma_clause_member(s17, !(flavor is Standard), SelectClause::Flavor, c);
        match c {
            SelectClause::OptimizerHint => {},
            SelectClause::Distinct => {},
            SelectClause::SelectModifiers => {},
            SelectClause::Top => {},
            SelectClause::Exclude => {},
            SelectClause::Into => {},
            SelectClause::LateralViews => {},
            SelectClause::Prewhere => {},
            SelectClause::Where => {},
            SelectClause::ConnectBy => {},
            SelectClause::ClusterBy => {},
            SelectClause::DistributeBy => {},
            SelectClause::SortBy => {},
            SelectClause::Having => {},
            SelectClause::NamedWindow => {},
            SelectClause::Qualify => {},
            SelectClause::ValueTableMode => {},
            SelectClause::Flavor => {},
        }
    }
}

pub proof fn lemma_select_clauses_are_those_present(p: SelectParts, flavor: FlavorKind)
    ensures
        forall|c: SelectClause| spec_select_clauses(p, flavor).contains(c) <==> spec_select_present(p, flavor, c),
        forall|i: int, j: int|
            0 <= i < j < spec_select_clauses(p, flavor).len() ==> spec_select_rank(#[trigger] spec_select_clauses(p, flavor)[i]) < spec_select_rank(
                #[trigger] spec_select_clauses(p, flavor)[j],
            ),
{
    lemma_select_leading_clauses_present(p, flavor);
    lemma_select_trailing_clauses_present(spec_select_leading_clauses(p), p, flavor);
    assert forall|c: SelectClause| spec_select_clauses(p, flavor).contains(c) <==> spec_select_present(p, flavor, c) by {
        if spec_select_rank(c) < 9 {
        }
    }
}

/// Position of a kind of function clause in the order its clauses are declared.
pub open spec fn spec_function_rank(clause: FunctionClause) -> int {
    match clause {
        FunctionClause::OdbcSyntax => 0,
        FunctionClause::Parameters => 1,
        FunctionClause::Filter => 2,
        FunctionClause::NullTreatment => 3,
        FunctionClause::Over => 4,
        FunctionClause::WithinGroup => 5,
    }
}

/// Whether the function has a clause of kind `clause`: its field is set, or
/// its list is not empty.
pub open spec fn spec_function_present(p: FunctionParts, parameters: ArgumentsKind, clause: FunctionClause) -> bool {
    match clause {
        FunctionClause::OdbcSyntax => p.uses_odbc_syntax,
        FunctionClause::Parameters => !(parameters is Absent),
        FunctionClause::Filter => p.filter is Some,
        FunctionClause::NullTreatment => p.null_treatment is Some,
        FunctionClause::Over => p.over is Some,
        FunctionClause::WithinGroup => p.within_group@.len() > 0,
    }
}

/// The clauses read from a function call are exactly the kinds of clause it has,
/// each once, in the order they are declared, given the
/// variant of its parameter list.

pub proof fn lemma_function_clauses_are_those_present(p: FunctionParts, parameters: ArgumentsKind)
    ensures
        forall|c: FunctionClause| spec_function_clauses(p, parameters).contains(c) <==> spec_function_present(p, parameters, c),
        forall|i: int, j: int|
            0 <= i < j < spec_function_clauses(p, parameters).len() ==> spec_function_rank(#[trigger] spec_function_clauses(p, parameters)[i]) < spec_function_rank(
                #[trigger] spec_function_clauses(p, parameters)[j],
            ),
{
    let s0 = Seq::<FunctionClause>::empty();
    let s1 = spec_if_present(s0, p.uses_odbc_syntax, FunctionClause::OdbcSyntax);
    lemma_clause_step(s0, p.uses_odbc_syntax, FunctionClause::OdbcSyntax, |c: FunctionClause| spec_function_rank(c));
    let s2 = spec_if_present(s1, !(parameters is Absent), FunctionClause::Parameters);
    lemma_clause_step(s1, !(parameters is Absent), FunctionClause::Parameters, |c: FunctionClause| spec_function_rank(c));
    let s3 = spec_if_present(s2, p.filter is Some, FunctionClause::Filter);
    lemma_clause_step(s2, p.filter is Some, FunctionClause::Filter, |c: FunctionClause| spec_function_rank(c));
    let s4 = spec_if_present(s3, p.null_treatment is Some, FunctionClause::NullTreatment);
    lemma_clause_step(s3, p.null_treatment is Some, FunctionClause::NullTreatment, |c: FunctionClause| spec_function_rank(c));
    let s5 = spec_if_present(s4, p.over is Some, FunctionClause::Over);
    lemma_clause_step(s4, p.over is Some, FunctionClause::Over, |c: FunctionClause| spec_function_rank(c));
    let s6 = spec_if_present(s5, p.within_group@.len() > 0, FunctionClause::WithinGroup);
    lemma_clause_step(s5, p.within_group@.len() > 0, FunctionClause::WithinGroup, |c: FunctionClause| spec_function_rank(c));
    assert(spec_function_clauses(p, parameters) == s6);
    assert forall|c: FunctionClause| s6.contains(c) <==> spec_function_present(p, parameters, c) by {
        lemma_clause_member(s0, p.uses_odbc_syntax, FunctionClause::OdbcSyntax, c);
        lemma_clause_member(s1, !(parameters is Absent), FunctionClause::Parameters, c);
        lemma_clause_member(s2, p.filter is Some, FunctionClause::Filter, c);
        lemma_clause_member(s3, p.null_treatment is Some, FunctionClause::NullTreatment, c);
        lemma_clause_member(s4, p.over is Some, FunctionClause::Over, c);
        lemma_clause_member(s5, p.within_group@.len() > 0, FunctionClause::WithinGroup, c);
        match c {
            FunctionClause::OdbcSyntax => {},
            FunctionClause::Parameters => {},
            FunctionClause::Filter => {},
            FunctionClause::NullTreatment => {},
            FunctionClause::Over => {},
            FunctionClause::WithinGroup => {},
        }
    }
}

/// Position of a kind of argument list clause in the order its clauses are declared.
pub open spec fn spec_argument_list_rank(clause: ArgumentListClause) -> int {
    match clause {
        ArgumentListClause::DuplicateTreatment => 0,
        ArgumentListClause::Clauses => 1,
    }
}

/// Whether the argument list has a clause of kind `clause`: its field is set, or
/// its list is not empty.
pub open spec fn spec_argument_list_present(p: ArgumentListParts, clause: ArgumentListClause) -> bool {
    match clause {
        ArgumentListClause::DuplicateTreatment => p.duplicate_treatment is Some,
        ArgumentListClause::Clauses => p.clauses@.len() > 0,
    }
}

/// The clauses read from a argument list are exactly the kinds of clause it has,
/// each once, in the order they are declared.

pub proof fn lemma_argument_list_clauses_are_those_present(p: ArgumentListParts)
    ensures
        forall|c: ArgumentListClause| spec_argument_list_clauses(p).contains(c) <==> spec_argument_list_present(p, c),
        forall|i: int, j: int|
            0 <= i < j < spec_argument_list_clauses(p).len() ==> spec_argument_list_rank(#[trigger] spec_argument_list_clauses(p)[i]) < spec_argument_list_rank(
                #[trigger] spec_argument_list_clauses(p)[j],
            ),
{
    let s0 = Seq::<ArgumentListClause>::empty();
    let s1 = spec_if_present(s0, p.duplicate_treatment is Some, ArgumentListClause::DuplicateTreatment);
    lemma_clause_step(s0, p.duplicate_treatment is Some, ArgumentListClause::DuplicateTreatment, |c: ArgumentListClause| spec_argument_list_rank(c));
    let s2 = spec_if_present(s1, p.clauses@.len() > 0, ArgumentListClause::Clauses);
    lemma_clause_step(s1, p.clauses@.len() > 0, ArgumentListClause::Clauses, |c: ArgumentListClause| spec_argument_list_rank(c));
    assert(spec_argument_list_clauses(p) == s2);
    assert forall|c: ArgumentListClause| s2.contains(c) <==> spec_argument_list_present(p, c) by {
        lemma_clause_member(s0, p.duplicate_treatment is Some, ArgumentListClause::DuplicateTreatment, c);
        lemma_clause_member(s1, p.clauses@.len() > 0, ArgumentListClause::Clauses, c);
        match c {
            ArgumentListClause::DuplicateTreatment => {},
            ArgumentListClause::Clauses => {},
        }
    }
}

fn push_if_present<C>(clauses: &mut Vec<C>, present: bool, clause: C)
    ensures
        final(clauses)@ == spec_if_present(old(clauses)@, present, clause),
{
    if present {
        clauses.push(clause);
    }
}

/// The clauses of a query besides its body that are present, in order.
pub fn query_clauses(q: &QueryParts) -> (clauses: Vec<QueryClause>)
    ensures
        clauses@ == spec_query_clauses(*q),
{
    let mut c: Vec<QueryClause> = Vec::new();
    push_if_present(&mut c, q.with.is_some(), QueryClause::With);
    push_if_present(&mut c, q.order_by.is_some(), QueryClause::OrderBy);
    push_if_present(&mut c, q.limit_clause.is_some(), QueryClause::Limit);
    push_if_present(&mut c, q.fetch.is_some(), QueryClause::Fetch);
    push_if_present(&mut c, q.locks.len() > 0, QueryClause::Locks);
    push_if_present(&mut c, q.for_clause.is_some(), QueryClause::For);
    push_if_present(&mut c, q.settings.is_some(), QueryClause::Settings);
    push_if_present(&mut c, q.format_clause.is_some(), QueryClause::Format);
    push_if_present(&mut c, q.pipe_operators.len() > 0, QueryClause::PipeOperators);
    c
}

/// The clauses of a select up to its `WHERE` that are present, in order.
fn select_leading_clauses(p: &SelectParts) -> (clauses: Vec<SelectClause>)
    ensures
        clauses@ == spec_select_leading_clauses(*p),
{
    let mut c: Vec<SelectClause> = Vec::new();
    push_if_present(&mut c, p.optimizer_hints.len() > 0, SelectClause::OptimizerHint);
    push_if_present(&mut c, p.distinct.is_some(), SelectClause::Distinct);
    push_if_present(&mut c, p.select_modifiers.is_some(), SelectClause::SelectModifiers);
    push_if_present(&mut c, p.top.is_some(), SelectClause::Top);
    push_if_present(&mut c, p.exclude.is_some(), SelectClause::Exclude);
    push_if_present(&mut c, p.into.is_some(), SelectClause::Into);
    push_if_present(&mut c, p.lateral_views.len() > 0, SelectClause::LateralViews);
    push_if_present(&mut c, p.prewhere.is_some(), SelectClause::Prewhere);
    push_if_present(&mut c, p.selection.is_some(), SelectClause::Where);
    c
}

/// The clauses of a select besides its projection, `FROM` and `GROUP BY`
/// that are present, in order, given the variant of its flavor.
pub fn select_clauses(p: &SelectParts, flavor: FlavorKind) -> (clauses: Vec<SelectClause>)
    ensures
        clauses@ == spec_select_clauses(*p, flavor),
{
    let mut c = select_leading_clauses(p);
    push_if_present(&mut c, p.connect_by.len() > 0, SelectClause::ConnectBy);
    push_if_present(&mut c, p.cluster_by.len() > 0, SelectClause::ClusterBy);
    push_if_present(&mut c, p.distribute_by.len() > 0, SelectClause::DistributeBy);
    push_if_present(&mut c, p.sort_by.len() > 0, SelectClause::SortBy);
    push_if_present(&mut c, p.having.is_some(), SelectClause::Having);
    push_if_present(&mut c, p.named_window.len() > 0, SelectClause::NamedWindow);
    push_if_present(&mut c, p.qualify.is_some(), SelectClause::Qualify);
    push_if_present(&mut c, p.value_table_mode.is_some(), SelectClause::ValueTableMode);
    let standard = match flavor {
        FlavorKind::Standard => true,
        _ => false,
    };
    push_if_present(&mut c, !standard, SelectClause::Flavor);
    c
}

/// The clauses of a function call besides its name and arguments that are
/// present, in order, given the variant of its parameter list.
pub fn function_clauses(f: &FunctionParts, parameters: &ArgumentsKind) -> (clauses: Vec<FunctionClause>)
    ensures
        clauses@ == spec_function_clauses(*f, *parameters),
{
    let mut c: Vec<FunctionClause> = Vec::new();
    push_if_present(&mut c, f.uses_odbc_syntax, FunctionClause::OdbcSyntax);
    let absent = match parameters {
        ArgumentsKind::Absent => true,
        _ => false,
    };
    push_if_present(&mut c, !absent, FunctionClause::Parameters);
    push_if_present(&mut c, f.filter.is_some(), FunctionClause::Filter);
    push_if_present(&mut c, f.null_treatment.is_some(), FunctionClause::NullTreatment);
    push_if_present(&mut c, f.over.is_some(), FunctionClause::Over);
    push_if_present(&mut c, f.within_group.len() > 0, FunctionClause::WithinGroup);
    c
}

/// The clauses of an argument list besides its arguments that are present.
pub fn argument_list_clauses(l: &ArgumentListParts) -> (clauses: Vec<ArgumentListClause>)
    ensures
        clauses@ == spec_argument_list_clauses(*l),
{
    let mut c: Vec<ArgumentListClause> = Vec::new();
    push_if_present(&mut c, l.duplicate_treatment.is_some(), ArgumentListClause::DuplicateTreatment);
    push_if_present(&mut c, l.clauses.len() > 0, ArgumentListClause::Clauses);
    c
}

/// Reads an expression, `depth` more levels deep at most.
fn expr_of(expr: Expr, depth: usize) -> (out: SqlExpr)
    decreases depth, 0int,
{
    if depth == 0 {
        return SqlExpr::Other;
    }
    match expr_parts(expr) {
        ExprParts::Identifier(name) => SqlExpr::Identifier(name),
        ExprParts::Function(function) => SqlExpr::Function(function_of(function_parts(function), depth - 1)),
        ExprParts::Other => SqlExpr::Other,
    }
}

/// Reads a function argument.
fn arg_of(arg: FunctionArg, depth: usize) -> (out: SqlFunctionArg)
    decreases depth, 1int,
{
    match arg_parts(arg) {
        ArgParts::UnnamedWildcard => SqlFunctionArg::UnnamedWildcard,
        ArgParts::UnnamedExpr(expr) => SqlFunctionArg::UnnamedExpr(expr_of(expr, depth)),
        ArgParts::Other => SqlFunctionArg::Other,
    }
}

/// Reads a function call: its name, its clauses as `spec_function_clauses`
/// says for the variant of its parameter list, and its arguments.
fn function_of(f: FunctionParts, depth: usize) -> (out: SqlFunction)
    ensures
        out.name@ == f.name@,
        exists|parameters: ArgumentsKind| out.clauses@ == spec_function_clauses(f, parameters),
    decreases depth, 2int,
{
    let kind = arguments_kind(&f.parameters);
    let clauses = function_clauses(&f, &kind);
    let FunctionParts { name, args, .. } = f;
    let args = match argument_list(args) {
        Some(list) => {
            let list = argument_list_parts(list);
            let list_clauses = argument_list_clauses(&list);
            let mut pending = list.args;
            let mut out: Vec<SqlFunctionArg> = Vec::new();
            while pending.len() > 0
                decreases pending.len(),
            {
                let arg = pending.remove(0);
                out.push(arg_of(arg, depth));
            }
            SqlFunctionArguments::List { clauses: list_clauses, args: out }
        },
        None => SqlFunctionArguments::Other,
    };
    SqlFunction { name, clauses, args }
}

/// Reads a projection item.
fn select_item_of(item: SelectItem) -> (out: SqlSelectItem) {
    match select_item_parts(item) {
        SelectItemParts::Unnamed(expr) => SqlSelectItem::UnnamedExpr(expr_of(expr, EXPR_DEPTH_LIMIT)),
        SelectItemParts::Aliased(expr, alias) => SqlSelectItem::ExprWithAlias {
            expr: expr_of(expr, EXPR_DEPTH_LIMIT),
            alias,
        },
        SelectItemParts::Other => SqlSelectItem::Other,
    }
}

/// Reads a `FROM` entry: its relation and whether joins follow it.
fn table_of(table: TableWithJoins) -> (out: SqlTableWithJoins) {
    let (relation, joins) = table_with_joins_parts(table);
    let relation = match table_factor_name(&relation) {
        Some(name) => SqlTableFactor::Table(name),
        None => SqlTableFactor::Other,
    };
    SqlTableWithJoins { relation, has_joins: joins.len() > 0 }
}

/// Reads a select whose flavor has variant `flavor`: its clauses as
/// `spec_select_clauses` says, one item per projection item, one entry per
/// `FROM` entry, and its `GROUP BY`.
pub fn select_of(p: SelectParts, flavor: FlavorKind) -> (out: SqlSelect)
    ensures
        out.clauses@ == spec_select_clauses(p, flavor),
        out.projection@.len() == p.projection@.len(),
        out.from@.len() == p.from@.len(),
{
    let clauses = select_clauses(&p, flavor);
    let SelectParts { projection, from, group_by, .. } = p;
    let n = projection.len();
    let mut items = projection;
    let mut out_items: Vec<SqlSelectItem> = Vec::new();
    while items.len() > 0
        invariant
            out_items@.len() + items@.len() == n,
        decreases items.len(),
    {
        let item = items.remove(0);
        out_items.push(select_item_of(item));
    }
    let m = from.len();
    let mut tables = from;
    let mut out_tables: Vec<SqlTableWithJoins> = Vec::new();
    while tables.len() > 0
        invariant
            out_tables@.len() + tables@.len() == m,
        decreases tables.len(),
    {
        let table = tables.remove(0);
        out_tables.push(table_of(table));
    }
    let group_by = match group_by_parts(group_by) {
        GroupByParts::Expressions(expressions, modifiers) => {
            let mut pending = expressions;
            let mut out: Vec<SqlExpr> = Vec::new();
            while pending.len() > 0
                decreases pending.len(),
            {
                let expr = pending.remove(0);
                out.push(expr_of(expr, EXPR_DEPTH_LIMIT));
            }
            SqlGroupBy::Expressions { expressions: out, has_modifiers: modifiers.len() > 0 }
        },
        GroupByParts::All => SqlGroupBy::All,
    };
    SqlSelect { clauses, projection: out_items, from: out_tables, group_by }
}

/// Reads a query body: a select where the body is one, something else
/// otherwise.
pub fn query_body_of(select: Option<Box<Select>>) -> (out: SqlSetExpr)
    ensures
        out is Select <==> select is Some,
{
    match select {
        Some(select) => {
            let parts = select_parts(*select);
            let flavor = flavor_kind(&parts.flavor);
            SqlSetExpr::Select(select_of(parts, flavor))
        },
        None => SqlSetExpr::Other,
    }
}

/// Reads a query: its clauses as `spec_query_clauses` says, and its body.
pub fn query_of(q: QueryParts) -> (out: SqlQuery)
    ensures
        out.clauses@ == spec_query_clauses(q),
{
    let clauses = query_clauses(&q);
    let QueryParts { body, .. } = q;
    let body = query_body_of(set_expr_select(*body));
    SqlQuery { clauses, body }
}

/// Reads a statement: a query where the statement is one, something else
/// otherwise.
pub fn statement_of(query: Option<Box<Query>>) -> (out: SqlStatement)
    ensures
        out is Query <==> query is Some,
{
    match query {
        Some(query) => SqlStatement::Query(query_of(query_parts(*query))),
        None => SqlStatement::Other,
    }
}

/// The one statement among `statements`: `StatementCount` when there are
/// not exactly one.
pub fn single_statement(statements: Vec<Statement>) -> (result: Result<ParsedStatement, ParseError>)
    ensures
        statements@.len() != 1 ==> result == Err::<ParsedStatement, ParseError>(
            ParseError::StatementCount(statements.len()),
        ),
        statements@.len() == 1 <==> result is Ok,
{
    let count = statements.len();
    if count != 1 {
        Err(ParseError::StatementCount(count))
    } else {
        let mut statements = statements;
        let statement = statements.remove(0);
        Ok(ParsedStatement(statement_of(statement_query(statement))))
    }
}

/// Parses `sql` with the `sqlparser` crate's generic dialect: `Syntax` with
/// the parser's message where the parser refuses the text, `StatementCount`
/// where it gives other than one statement, and otherwise the one statement.
pub fn try_parse(sql: &str) -> (result: Result<ParsedStatement, ParseError>)
    ensures
        result is Ok <==> sql_statement_count(sql@) == Some(1nat),
        sql_statement_count(sql@) is None ==> result matches Err(ParseError::Syntax(_)),
        sql_statement_count(sql@) is Some && sql_statement_count(sql@).unwrap() != 1 ==> result == Err::<
            ParsedStatement,
            ParseError,
        >(ParseError::StatementCount(sql_statement_count(sql@).unwrap() as usize)),
{
    match parse_sql_text(sql) {
        Ok(statements) => single_statement(statements),
        Err(error) => Err(ParseError::Syntax(parser_error_text(&error))),
    }
}

} // verus!
