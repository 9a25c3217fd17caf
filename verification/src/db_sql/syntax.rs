//! The SQL parser of the `sqlparser` crate, and the parts of its syntax tree
//! that translation reads. Each node is taken apart field by field into a
//! struct of this module; which of those fields count as unsupported is
//! decided by the verified code of `parse`.
use sqlparser::ast::{
    ConnectByKind, Distinct, DuplicateTreatment, ExcludeSelectItem, Expr, Fetch, ForClause, FormatClause,
    Function, FunctionArg, FunctionArgExpr, FunctionArgumentClause, FunctionArgumentList, FunctionArguments,
    GroupByExpr, GroupByWithModifier, Join, LateralView, LimitClause, LockClause, NamedWindowDefinition,
    NullTreatment, OptimizerHint, OrderBy, OrderByExpr, PipeOperator, Query, Select, SelectFlavor, SelectInto,
    SelectItem, SelectModifiers, SetExpr, Setting, Statement, TableFactor, TableWithJoins, Top,
    ValueTableMode, WindowType, With,
};
use sqlparser::parser::ParserError;
use vstd::prelude::*;

verus! {

#[verifier::external_type_specification]
#[verifier::external_body]
pub struct ExStatement(Statement);

#[verifier::external_type_specification]
#[verifier::external_body]
pub struct ExParserError(ParserError);

#[verifier::external_type_specification]
#[verifier::external_body]
pub struct ExQuery(Query);

#[verifier::external_type_specification]
#[verifier::external_body]
pub struct ExSetExpr(SetExpr);

#[verifier::external_type_specification]
#[verifier::external_body]
pub struct ExSelect(Select);

#[verifier::external_type_specification]
#[verifier::external_body]
pub struct ExWith(With);

#[verifier::external_type_specification]
#[verifier::external_body]
pub struct ExOrderBy(OrderBy);

#[verifier::external_type_specification]
#[verifier::external_body]
pub struct ExLimitClause(LimitClause);

#[verifier::external_type_specification]
#[verifier::external_body]
pub struct ExFetch(Fetch);

#[verifier::external_type_specification]
#[verifier::external_body]
pub struct ExLockClause(LockClause);

#[verifier::external_type_specification]
#[verifier::external_body]
pub struct ExForClause(ForClause);

#[verifier::external_type_specification]
#[verifier::external_body]
pub struct ExSetting(Setting);

#[verifier::external_type_specification]
#[verifier::external_body]
pub struct ExFormatClause(FormatClause);

#[verifier::external_type_specification]
#[verifier::external_body]
pub struct ExPipeOperator(PipeOperator);

#[verifier::external_type_specification]
#[verifier::external_body]
pub struct ExOptimizerHint(OptimizerHint);

#[verifier::external_type_specification]
#[verifier::external_body]
pub struct ExDistinct(Distinct);

#[verifier::external_type_specification]
#[verifier::external_body]
pub struct ExSelectModifiers(SelectModifiers);

#[verifier::external_type_specification]
#[verifier::external_body]
pub struct ExTop(Top);

#[verifier::external_type_specification]
#[verifier::external_body]
pub struct ExExcludeSelectItem(ExcludeSelectItem);

#[verifier::external_type_specification]
#[verifier::external_body]
pub struct ExSelectInto(SelectInto);

#[verifier::external_type_specification]
#[verifier::external_body]
pub struct ExLateralView(LateralView);

#[verifier::external_type_specification]
#[verifier::external_body]
pub struct ExExpr(Expr);

#[verifier::external_type_specification]
#[verifier::external_body]
pub struct ExConnectByKind(ConnectByKind);

#[verifier::external_type_specification]
#[verifier::external_body]
pub struct ExOrderByExpr(OrderByExpr);

#[verifier::external_type_specification]
#[verifier::external_body]
pub struct ExNamedWindowDefinition(NamedWindowDefinition);

#[verifier::external_type_specification]
#[verifier::external_body]
pub struct ExValueTableMode(ValueTableMode);

#[verifier::external_type_specification]
#[verifier::external_body]
pub struct ExSelectFlavor(SelectFlavor);

#[verifier::external_type_specification]
#[verifier::external_body]
pub struct ExSelectItem(SelectItem);

#[verifier::external_type_specification]
#[verifier::external_body]
pub struct ExTableWithJoins(TableWithJoins);

#[verifier::external_type_specification]
#[verifier::external_body]
pub struct ExTableFactor(TableFactor);

#[verifier::external_type_specification]
#[verifier::external_body]
pub struct ExJoin(Join);

#[verifier::external_type_specification]
#[verifier::external_body]
pub struct ExGroupByExpr(GroupByExpr);

#[verifier::external_type_specification]
#[verifier::external_body]
pub struct ExGroupByWithModifier(GroupByWithModifier);

#[verifier::external_type_specification]
#[verifier::external_body]
pub struct ExFunction(Function);

#[verifier::external_type_specification]
#[verifier::external_body]
pub struct ExFunctionArguments(FunctionArguments);

#[verifier::external_type_specification]
#[verifier::external_body]
pub struct ExFunctionArgumentList(FunctionArgumentList);

#[verifier::external_type_specification]
#[verifier::external_body]
pub struct ExDuplicateTreatment(DuplicateTreatment);

#[verifier::external_type_specification]
#[verifier::external_body]
pub struct ExFunctionArgumentClause(FunctionArgumentClause);

#[verifier::external_type_specification]
#[verifier::external_body]
pub struct ExFunctionArg(FunctionArg);

#[verifier::external_type_specification]
#[verifier::external_body]
pub struct ExNullTreatment(NullTreatment);

#[verifier::external_type_specification]
#[verifier::external_body]
pub struct ExWindowType(WindowType);

/// The fields of a `sqlparser` query.
pub struct QueryParts {
    pub with: Option<With>,
    pub body: Box<SetExpr>,
    pub order_by: Option<OrderBy>,
    pub limit_clause: Option<LimitClause>,
    pub fetch: Option<Fetch>,
    pub locks: Vec<LockClause>,
    pub for_clause: Option<ForClause>,
    pub settings: Option<Vec<Setting>>,
    pub format_clause: Option<FormatClause>,
    pub pipe_operators: Vec<PipeOperator>,
}

/// The fields of a `sqlparser` select that translation reads.
pub struct SelectParts {
    pub optimizer_hints: Vec<OptimizerHint>,
    pub distinct: Option<Distinct>,
    pub select_modifiers: Option<SelectModifiers>,
    pub top: Option<Top>,
    pub projection: Vec<SelectItem>,
    pub exclude: Option<ExcludeSelectItem>,
    pub into: Option<SelectInto>,
    pub from: Vec<TableWithJoins>,
    pub lateral_views: Vec<LateralView>,
    pub prewhere: Option<Expr>,
    pub selection: Option<Expr>,
    pub connect_by: Vec<ConnectByKind>,
    pub group_by: GroupByExpr,
    pub cluster_by: Vec<Expr>,
    pub distribute_by: Vec<Expr>,
    pub sort_by: Vec<OrderByExpr>,
    pub having: Option<Expr>,
    pub named_window: Vec<NamedWindowDefinition>,
    pub qualify: Option<Expr>,
    pub value_table_mode: Option<ValueTableMode>,
    pub flavor: SelectFlavor,
}

/// The three flavors of a `sqlparser` select.
pub enum FlavorKind {
    Standard,
    FromFirst,
    FromFirstNoSelect,
}

/// A `sqlparser` projection item, by variant.
pub enum SelectItemParts {
    Unnamed(Expr),
    Aliased(Expr, String),
    Other,
}

/// A `sqlparser` expression, by the variants translation reads.
pub enum ExprParts {
    Identifier(String),
    Function(Function),
    Other,
}

/// The fields of a `sqlparser` function call; the name as `sqlparser`
/// writes it.
pub struct FunctionParts {
    pub name: String,
    pub uses_odbc_syntax: bool,
    pub parameters: FunctionArguments,
    pub args: FunctionArguments,
    pub within_group: Vec<OrderByExpr>,
    pub filter: Option<Box<Expr>>,
    pub null_treatment: Option<NullTreatment>,
    pub over: Option<WindowType>,
}

/// The variant of `sqlparser` function arguments.
pub enum ArgumentsKind {
    Absent,
    Subquery,
    List,
}

/// The fields of a `sqlparser` argument list.
pub struct ArgumentListParts {
    pub duplicate_treatment: Option<DuplicateTreatment>,
    pub args: Vec<FunctionArg>,
    pub clauses: Vec<FunctionArgumentClause>,
}

/// A `sqlparser` function argument, by the variants translation reads.
pub enum ArgParts {
    UnnamedWildcard,
    UnnamedExpr(Expr),
    Other,
}

/// A `sqlparser` `GROUP BY`, by variant.
pub enum GroupByParts {
    Expressions(Vec<Expr>, Vec<GroupByWithModifier>),
    All,
}

/// Name for what `Parser::parse_sql` with the generic dialect makes of a
/// text: `None` where it refuses the text, otherwise how many statements it
/// gives. The parser depends on the dialect and the text alone.
pub uninterp spec fn sql_statement_count(sql: Seq<char>) -> Option<nat>;

/// `sqlparser::parser::Parser::parse_sql` with the generic dialect: the
/// statements of `sql`, or the parser's error. Whether it succeeds and how
/// many statements it gives are named by `sql_statement_count`; what the
/// statements hold is not stated here.
#[verifier::external_body]
pub(crate) fn parse_sql_text(sql: &str) -> (statements: Result<Vec<Statement>, ParserError>)
    ensures
        statements is Ok <==> sql_statement_count(sql@) is Some,
        statements matches Ok(v) ==> sql_statement_count(sql@) == Some(v@.len()),
{
    sqlparser::parser::Parser::parse_sql(&sqlparser::dialect::GenericDialect {}, sql)
}

/// The message of a `sqlparser` error, as its `Display` writes it; the text
/// is not stated here.
#[verifier::external_body]
pub(crate) fn parser_error_text(error: &ParserError) -> (text: String) {
    error.to_string()
}

/// The query of a `sqlparser` statement, if it is one.
#[verifier::external_body]
pub(crate) fn statement_query(statement: Statement) -> (query: Option<Box<Query>>) {
    match statement {
        Statement::Query(query) => Some(query),
        _ => None,
    }
}

/// The fields of a `sqlparser` query.
#[verifier::external_body]
pub(crate) fn query_parts(query: Query) -> (parts: QueryParts) {
    let Query { with, body, order_by, limit_clause, fetch, locks, for_clause, settings, format_clause, pipe_operators } =
        query;
    QueryParts { with, body, order_by, limit_clause, fetch, locks, for_clause, settings, format_clause, pipe_operators }
}

/// The select of a `sqlparser` query body, if it is one.
#[verifier::external_body]
pub(crate) fn set_expr_select(body: SetExpr) -> (select: Option<Box<Select>>) {
    match body {
        SetExpr::Select(select) => Some(select),
        _ => None,
    }
}

/// The fields of a `sqlparser` select that translation reads.
#[verifier::external_body]
pub(crate) fn select_parts(select: Select) -> (parts: SelectParts) {
    let Select { optimizer_hints, distinct, select_modifiers, top, projection, exclude, into, from, lateral_views,
        prewhere, selection, connect_by, group_by, cluster_by, distribute_by, sort_by, having, named_window,
        qualify, value_table_mode, flavor, .. } = select;
    SelectParts { optimizer_hints, distinct, select_modifiers, top, projection, exclude, into, from, lateral_views,
        prewhere, selection, connect_by, group_by, cluster_by, distribute_by, sort_by, having, named_window,
        qualify, value_table_mode, flavor }
}

/// The variant of a `sqlparser` select flavor.
#[verifier::external_body]
pub(crate) fn flavor_kind(flavor: &SelectFlavor) -> (kind: FlavorKind) {
    match flavor {
        SelectFlavor::Standard => FlavorKind::Standard,
        SelectFlavor::FromFirst => FlavorKind::FromFirst,
        SelectFlavor::FromFirstNoSelect => FlavorKind::FromFirstNoSelect,
    }
}

/// A `sqlparser` projection item by variant; an alias as its text.
#[verifier::external_body]
pub(crate) fn select_item_parts(item: SelectItem) -> (parts: SelectItemParts) {
    match item {
        SelectItem::UnnamedExpr(expr) => SelectItemParts::Unnamed(expr),
        SelectItem::ExprWithAlias { expr, alias } => SelectItemParts::Aliased(expr, alias.value),
        _ => SelectItemParts::Other,
    }
}

/// A `sqlparser` `FROM` entry: the relation and its joins.
#[verifier::external_body]
pub(crate) fn table_with_joins_parts(table: TableWithJoins) -> (parts: (TableFactor, Vec<Join>)) {
    (table.relation, table.joins)
}

/// The name of a `sqlparser` table relation as its `Display` writes it, if
/// the relation is a named table; the text is not stated here.
#[verifier::external_body]
pub(crate) fn table_factor_name(relation: &TableFactor) -> (name: Option<String>) {
    match relation {
        TableFactor::Table { name, .. } => Some(name.to_string()),
        _ => None,
    }
}

/// A `sqlparser` expression by the variants translation reads; an
/// identifier as its text.
#[verifier::external_body]
pub(crate) fn expr_parts(expr: Expr) -> (parts: ExprParts) {
    match expr {
        Expr::Identifier(identifier) => ExprParts::Identifier(identifier.value),
        Expr::Function(function) => ExprParts::Function(function),
        _ => ExprParts::Other,
    }
}

/// The fields of a `sqlparser` function call, its name as the `Display` of
/// `ObjectName` writes it; the text is not stated here.
#[verifier::external_body]
pub(crate) fn function_parts(function: Function) -> (parts: FunctionParts) {
    let Function { name, uses_odbc_syntax, parameters, args, within_group, filter, null_treatment, over } =
        function;
    FunctionParts { name: name.to_string(), uses_odbc_syntax, parameters, args, within_group, filter,
        null_treatment, over }
}

/// The variant of `sqlparser` function arguments.
#[verifier::external_body]
pub(crate) fn arguments_kind(arguments: &FunctionArguments) -> (kind: ArgumentsKind) {
    match arguments {
        FunctionArguments::None => ArgumentsKind::Absent,
        FunctionArguments::Subquery(_) => ArgumentsKind::Subquery,
        FunctionArguments::List(_) => ArgumentsKind::List,
    }
}

/// The argument list of `sqlparser` function arguments, if they are one.
#[verifier::external_body]
pub(crate) fn argument_list(arguments: FunctionArguments) -> (list: Option<FunctionArgumentList>) {
    match arguments {
        FunctionArguments::List(list) => Some(list),
        _ => None,
    }
}

/// The fields of a `sqlparser` argument list.
#[verifier::external_body]
pub(crate) fn argument_list_parts(list: FunctionArgumentList) -> (parts: ArgumentListParts) {
    let FunctionArgumentList { duplicate_treatment, args, clauses } = list;
    ArgumentListParts { duplicate_treatment, args, clauses }
}

/// A `sqlparser` function argument by the variants translation reads.
#[verifier::external_body]
pub(crate) fn arg_parts(arg: FunctionArg) -> (parts: ArgParts) {
    match arg {
        FunctionArg::Unnamed(FunctionArgExpr::Wildcard) => ArgParts::UnnamedWildcard,
        FunctionArg::Unnamed(FunctionArgExpr::Expr(expr)) => ArgParts::UnnamedExpr(expr),
        _ => ArgParts::Other,
    }
}

/// The variant of a `sqlparser` `GROUP BY`.
#[verifier::external_body]
pub(crate) fn group_by_parts(group_by: GroupByExpr) -> (parts: GroupByParts) {
    match group_by {
        GroupByExpr::Expressions(expressions, modifiers) => GroupByParts::Expressions(expressions, modifiers),
        GroupByExpr::All(_) => GroupByParts::All,
    }
}

} // verus!
