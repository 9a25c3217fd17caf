//! Translation of a parsed `SELECT` into an unresolved plan; anything outside
//! the supported subset is refused with the first thing found unsupported.
use vstd::prelude::*;

use crate::db_sql::parse::{
    ArgumentListClause, FunctionClause, ParsedStatement, QueryClause, SelectClause, SqlExpr, SqlFunction,
    SqlFunctionArg, SqlFunctionArguments, SqlGroupBy, SqlQuery, SqlSelect, SqlSelectItem, SqlSetExpr, SqlStatement,
    SqlTableFactor, SqlTableWithJoins,
};
use crate::db_types::plan::{UnresolvedExpr, UnresolvedFunctionArgs, UnresolvedPlan, UnresolvedSelectItem};
use crate::text::{spec_lowercase, to_lowercase};

verus! {

/// The first part of a statement found outside the supported subset.
#[derive(Debug, Clone, Copy, PartialEq, Eq, Structural)]
pub enum TranslateError {
    /// A statement other than a query.
    Statement,
    QueryClause(QueryClause),
    /// A query body other than a `SELECT`.
    QueryBody,
    SelectClause(SelectClause),
    /// A projection item other than an expression, aliased or not.
    SelectItem,
    /// An expression other than an identifier or a function call.
    Expression,
    FunctionClause(FunctionClause),
    ArgumentListClause(ArgumentListClause),
    /// Function arguments other than a parenthesized list.
    FunctionArguments,
    /// An argument other than an unnamed expression (or a lone `*`).
    FunctionArgument,
    /// Not exactly one table in `FROM`: how many there are.
    FromCount(usize),
    /// A relation other than a named table.
    TableFactor,
    Joins,
    GroupByModifiers,
    GroupByAll,
}

/// An argument list that is a lone `*`.
pub open spec fn spec_is_star(args: Seq<SqlFunctionArg>) -> bool {
    args.len() == 1 && args[0] is UnnamedWildcard
}

/// The first unsupported part of an expression, if any.
pub open spec fn spec_expr_failure(expression: SqlExpr) -> Option<TranslateError>
    decreases expression, 0int,
{
    match expression {
        SqlExpr::Identifier(_) => None,
        SqlExpr::Other => Some(TranslateError::Expression),
        SqlExpr::Function(function) => if function.clauses@.len() > 0 {
            Some(TranslateError::FunctionClause(function.clauses@[0]))
        } else {
            match function.args {
                SqlFunctionArguments::Other => Some(TranslateError::FunctionArguments),
                SqlFunctionArguments::List { clauses, args } => if clauses@.len() > 0 {
                    Some(TranslateError::ArgumentListClause(clauses@[0]))
                } else if spec_is_star(args@) {
                    None
                } else {
                    spec_args_failure(args@, 0)
                },
            }
        },
    }
}

/// The first unsupported part of the arguments from `start` on, if any.
pub open spec fn spec_args_failure(args: Seq<SqlFunctionArg>, start: int) -> Option<TranslateError>
    decreases args, args.len() - start,
{
    if start < 0 || start >= args.len() {
        None
    } else {
        match args[start] {
            SqlFunctionArg::UnnamedExpr(expression) => match spec_expr_failure(expression) {
                Some(failure) => Some(failure),
                None => spec_args_failure(args, start + 1),
            },
            _ => Some(TranslateError::FunctionArgument),
        }
    }
}

/// `out` is what a supported expression translates to: an identifier
/// becomes a column reference; a call keeps its name, lowercased, and its
/// `*` or its translated arguments.
pub open spec fn spec_expr_translated(expression: SqlExpr, out: UnresolvedExpr) -> bool
    decreases expression,
{
    match expression {
        SqlExpr::Identifier(name) => out matches UnresolvedExpr::Column(column) && column@ == name@,
        SqlExpr::Function(function) => match (function.args, out) {
            (
                SqlFunctionArguments::List { args: sql_args, .. },
                UnresolvedExpr::Function { name, args },
            ) => name@ == spec_lowercase(function.name@) && if spec_is_star(sql_args@) {
                args is Star
            } else {
                args matches UnresolvedFunctionArgs::Exprs(translated) && translated@.len() == sql_args@.len()
                    && forall|i: int|
                    0 <= i < sql_args@.len() ==> (#[trigger] sql_args@[i] matches SqlFunctionArg::UnnamedExpr(argument)
                        && spec_expr_translated(argument, translated@[i]))
            },
            _ => false,
        },
        SqlExpr::Other => false,
    }
}

/// The first unsupported part of a projection item, if any.
pub open spec fn spec_item_failure(item: SqlSelectItem) -> Option<TranslateError> {
    match item {
        SqlSelectItem::UnnamedExpr(expression) => spec_expr_failure(expression),
        SqlSelectItem::ExprWithAlias { expr, .. } => spec_expr_failure(expr),
        SqlSelectItem::Other => Some(TranslateError::SelectItem),
    }
}

/// `out` is what a supported projection item translates to.
pub open spec fn spec_item_translated(item: SqlSelectItem, out: UnresolvedSelectItem) -> bool {
    match item {
        SqlSelectItem::UnnamedExpr(expression) => spec_expr_translated(expression, out.expr) && out.alias is None,
        SqlSelectItem::ExprWithAlias { expr, alias } => spec_expr_translated(expr, out.expr) && (out.alias matches Some(
            a,
        ) && a@ == alias@),
        SqlSelectItem::Other => false,
    }
}

/// The first unsupported part among the items from `start` on, if any.
pub open spec fn spec_items_failure(items: Seq<SqlSelectItem>, start: int) -> Option<TranslateError>
    decreases items.len() - start,
{
    if start < 0 || start >= items.len() {
        None
    } else {
        match spec_item_failure(items[start]) {
            Some(failure) => Some(failure),
            None => spec_items_failure(items, start + 1),
        }
    }
}

/// The first unsupported part among the expressions from `start` on, if any.
pub open spec fn spec_exprs_failure(expressions: Seq<SqlExpr>, start: int) -> Option<TranslateError>
    decreases expressions.len() - start,
{
    if start < 0 || start >= expressions.len() {
        None
    } else {
        match spec_expr_failure(expressions[start]) {
            Some(failure) => Some(failure),
            None => spec_exprs_failure(expressions, start + 1),
        }
    }
}

/// What is unsupported about a `FROM`, if anything: it must be one named
/// table without joins.
pub open spec fn spec_from_failure(from: Seq<SqlTableWithJoins>) -> Option<TranslateError> {
    if from.len() != 1 {
        Some(TranslateError::FromCount(from.len() as usize))
    } else if from[0].has_joins {
        Some(TranslateError::Joins)
    } else if from[0].relation is Other {
        Some(TranslateError::TableFactor)
    } else {
        None
    }
}

/// What is unsupported about a `GROUP BY`, if anything.
pub open spec fn spec_group_failure(group_by: SqlGroupBy) -> Option<TranslateError> {
    match group_by {
        SqlGroupBy::All => Some(TranslateError::GroupByAll),
        SqlGroupBy::Expressions { expressions, has_modifiers } => if has_modifiers {
            Some(TranslateError::GroupByModifiers)
        } else {
            spec_exprs_failure(expressions@, 0)
        },
    }
}

/// The first unsupported part of a `SELECT`: its extra clauses, then its
/// projection items in order, its `FROM`, its `GROUP BY`.
pub open spec fn spec_select_failure(select: SqlSelect) -> Option<TranslateError> {
    if select.clauses@.len() > 0 {
        Some(TranslateError::SelectClause(select.clauses@[0]))
    } else if spec_items_failure(select.projection@, 0) is Some {
        spec_items_failure(select.projection@, 0)
    } else if spec_from_failure(select.from@) is Some {
        spec_from_failure(select.from@)
    } else {
        spec_group_failure(select.group_by)
    }
}

/// The first unsupported part of a statement, if any.
pub open spec fn spec_statement_failure(statement: SqlStatement) -> Option<TranslateError> {
    match statement {
        SqlStatement::Other => Some(TranslateError::Statement),
        SqlStatement::Query(query) => if query.clauses@.len() > 0 {
            Some(TranslateError::QueryClause(query.clauses@[0]))
        } else {
            match query.body {
                SqlSetExpr::Other => Some(TranslateError::QueryBody),
                SqlSetExpr::Select(select) => spec_select_failure(select),
            }
        },
    }
}

/// Only a plain `SELECT` translates: a query with no clause besides its
/// body, whose body is a select with no clause besides its projection,
/// `FROM` and `GROUP BY`, reading one named table without joins, grouped by
/// expressions without modifiers. Any query clause (a `LIMIT`, say) or
/// select clause (a `WHERE`, say) makes translation fail, naming the first.
pub proof fn lemma_only_plain_selects_translate(statement: SqlStatement)
    ensures
        spec_statement_failure(statement) is None ==> {
            &&& statement matches SqlStatement::Query(query)
            &&& query.clauses@.len() == 0
            &&& query.body matches SqlSetExpr::Select(select)
            &&& select.clauses@.len() == 0
            &&& select.from@.len() == 1
            &&& !select.from@[0].has_joins
            &&& select.from@[0].relation is Table
            &&& select.group_by matches SqlGroupBy::Expressions { has_modifiers, .. }
            &&& !has_modifiers
        },
        (statement is Query && statement->0.clauses@.len() > 0) ==> spec_statement_failure(statement) == Some(
            TranslateError::QueryClause(statement->0.clauses@[0]),
        ),
        (statement is Query && statement->0.clauses@.len() == 0 && statement->0.body is Select
            && statement->0.body->0.clauses@.len() > 0) ==> spec_statement_failure(statement) == Some(
            TranslateError::SelectClause(statement->0.body->0.clauses@[0]),
        ),
{
}

/// `plan` is what a supported `SELECT` translates to: its items, its one
/// table's name and its grouping expressions, each translated.
pub open spec fn spec_select_translated(select: SqlSelect, plan: UnresolvedPlan) -> bool {
    match plan {
        UnresolvedPlan::Select { projection, from, group_by } => {
            &&& projection@.len() == select.projection@.len()
            &&& forall|i: int|
                0 <= i < projection@.len() ==> spec_item_translated(select.projection@[i], #[trigger] projection@[i])
            &&& (select.from@[0].relation matches SqlTableFactor::Table(name) && from@ == name@)
            &&& (select.group_by matches SqlGroupBy::Expressions { expressions, .. } && group_by@.len()
                == expressions@.len() && forall|i: int|
                0 <= i < group_by@.len() ==> spec_expr_translated(expressions@[i], #[trigger] group_by@[i]))
        },
    }
}

/// `plan` is what a supported statement translates to.
pub open spec fn spec_translated(statement: SqlStatement, plan: UnresolvedPlan) -> bool {
    statement matches SqlStatement::Query(query) && query.body matches SqlSetExpr::Select(select)
        && spec_select_translated(select, plan)
}

/// With no failure among the first `i` arguments, the arguments fail as
/// those from `i` on do.
proof fn lemma_args_failure_skip(args: Seq<SqlFunctionArg>, i: int)
    requires
        0 <= i <= args.len(),
        forall|k: int|
            0 <= k < i ==> (#[trigger] args[k] matches SqlFunctionArg::UnnamedExpr(x) && spec_expr_failure(x) is None),
    ensures
        spec_args_failure(args, 0) == spec_args_failure(args, i),
    decreases i,
{
    if i > 0 {
        lemma_args_failure_skip(args, i - 1);
        assert(args[i - 1] matches SqlFunctionArg::UnnamedExpr(x) && spec_expr_failure(x) is None);
    }
}

/// Translates an identifier or a function call.
fn translate_expr(expression: SqlExpr) -> (result: Result<UnresolvedExpr, TranslateError>)
    ensures
        match spec_expr_failure(expression) {
            Some(failure) => result == Err::<UnresolvedExpr, TranslateError>(failure),
            None => result matches Ok(out) && spec_expr_translated(expression, out),
        },
    decreases expression, 2int,
{
    match expression {
        SqlExpr::Identifier(identifier) => Ok(UnresolvedExpr::Column(identifier)),
        SqlExpr::Function(function) => translate_function(function),
        SqlExpr::Other => Err(TranslateError::Expression),
    }
}

/// Translates a plain function call: no clauses besides its arguments.
fn translate_function(function: SqlFunction) -> (result: Result<UnresolvedExpr, TranslateError>)
    ensures
        match spec_expr_failure(SqlExpr::Function(function)) {
            Some(failure) => result == Err::<UnresolvedExpr, TranslateError>(failure),
            None => result matches Ok(out) && spec_expr_translated(SqlExpr::Function(function), out),
        },
    decreases function, 1int,
{
    let SqlFunction { name, clauses, args } = function;
    if clauses.len() > 0 {
        Err(TranslateError::FunctionClause(clauses[0]))
    } else {
        let lower = to_lowercase(name.as_str());
        translate_function_arguments(lower, args)
    }
}

/// Translates the arguments of a call named `name`: a lone `*`, or a list
/// of expressions.
fn translate_function_arguments(name: String, arguments: SqlFunctionArguments) -> (result: Result<
    UnresolvedExpr,
    TranslateError,
>)
    ensures
        match arguments {
            SqlFunctionArguments::Other => result == Err::<UnresolvedExpr, TranslateError>(
                TranslateError::FunctionArguments,
            ),
            SqlFunctionArguments::List { clauses, args: sql_args } => if clauses@.len() > 0 {
                result == Err::<UnresolvedExpr, TranslateError>(TranslateError::ArgumentListClause(clauses@[0]))
            } else if spec_is_star(sql_args@) {
                result matches Ok(UnresolvedExpr::Function { name: n, args }) && n@ == name@ && args is Star
            } else {
                match spec_args_failure(sql_args@, 0) {
                    Some(failure) => result == Err::<UnresolvedExpr, TranslateError>(failure),
                    None => result matches Ok(UnresolvedExpr::Function { name: n, args }) && n@ == name@ && (
                    args matches UnresolvedFunctionArgs::Exprs(translated) && translated@.len() == sql_args@.len()
                        && forall|i: int|
                        0 <= i < sql_args@.len() ==> (#[trigger] sql_args@[i] matches SqlFunctionArg::UnnamedExpr(
                            argument,
                        ) && spec_expr_translated(argument, translated@[i]))),
                }
            },
        },
    decreases arguments, 0int,
{
    match arguments {
        SqlFunctionArguments::Other => Err(TranslateError::FunctionArguments),
        SqlFunctionArguments::List { clauses, args } => {
            if clauses.len() > 0 {
                return Err(TranslateError::ArgumentListClause(clauses[0]));
            }
            let star = args.len() == 1 && match &args[0] {
                SqlFunctionArg::UnnamedWildcard => true,
                _ => false,
            };
            if star {
                return Ok(UnresolvedExpr::Function { name, args: UnresolvedFunctionArgs::Star });
            }
            let ghost items = args@;
            let ghost whole = arguments;
            assert(items.len() == args.len());
            let mut translated: Vec<UnresolvedExpr> = Vec::new();
            let mut i: usize = 0;
            for argument in it: args
                invariant
                    items == args@,
                    it.seq() == items,
                    i == it.index(),
                    i <= items.len(),
                    items.len() <= usize::MAX,
                    whole == arguments,
                    arguments matches SqlFunctionArguments::List { args: a, clauses: c } && a@ == items && c@.len() == 0,
                    !spec_is_star(items),
                    translated@.len() == i,
                    forall|k: int|
                        0 <= k < i ==> (#[trigger] items[k] matches SqlFunctionArg::UnnamedExpr(x) && spec_expr_failure(x) is None
                            && spec_expr_translated(x, translated@[k])),
            {
                assert(argument == items[i as int]);
                match argument {
                    SqlFunctionArg::UnnamedExpr(expression) => {
                        proof {
                            let a = arguments->List_args;
                            assert(decreases_to!(arguments => a));
                            assert(decreases_to!(a => a@));
                            assert(decreases_to!(a@ => a@[i as int]));
                            assert(decreases_to!(a@[i as int] => expression));
                        }
                        match translate_expr(expression) {
                            Ok(out) => {
                                translated.push(out);
                            },
                            Err(error) => {
                                proof {
                                    lemma_args_failure_skip(items, i as int);
                                }
                                return Err(error);
                            },
                        }
                    },
                    _ => {
                        proof {
                            lemma_args_failure_skip(items, i as int);
                        }
                        return Err(TranslateError::FunctionArgument);
                    },
                }
                i = i + 1;
            }
            proof {
                lemma_args_failure_skip(items, items.len() as int);
            }
            Ok(UnresolvedExpr::Function { name, args: UnresolvedFunctionArgs::Exprs(translated) })
        },
    }
}

/// With no failure among the first `i` items, the items fail as those from
/// `i` on do.
proof fn lemma_items_failure_skip(items: Seq<SqlSelectItem>, i: int)
    requires
        0 <= i <= items.len(),
        forall|k: int| 0 <= k < i ==> spec_item_failure(#[trigger] items[k]) is None,
    ensures
        spec_items_failure(items, 0) == spec_items_failure(items, i),
    decreases i,
{
    if i > 0 {
        lemma_items_failure_skip(items, i - 1);
    }
}

/// With no failure among the first `i` expressions, the expressions fail as
/// those from `i` on do.
proof fn lemma_exprs_failure_skip(expressions: Seq<SqlExpr>, i: int)
    requires
        0 <= i <= expressions.len(),
        forall|k: int| 0 <= k < i ==> spec_expr_failure(#[trigger] expressions[k]) is None,
    ensures
        spec_exprs_failure(expressions, 0) == spec_exprs_failure(expressions, i),
    decreases i,
{
    if i > 0 {
        lemma_exprs_failure_skip(expressions, i - 1);
    }
}

/// Fails on the first clause of a `SELECT` outside the supported subset.
fn ensure_supported_select(select: &SqlSelect) -> (result: Result<(), TranslateError>)
    ensures
        if select.clauses@.len() > 0 {
            result == Err::<(), TranslateError>(TranslateError::SelectClause(select.clauses@[0]))
        } else {
            result == Ok::<(), TranslateError>(())
        },
{
    if select.clauses.len() > 0 {
        Err(TranslateError::SelectClause(select.clauses[0]))
    } else {
        Ok(())
    }
}

/// Translates a projection item, keeping its alias.
fn translate_select_item(item: SqlSelectItem) -> (result: Result<UnresolvedSelectItem, TranslateError>)
    ensures
        match spec_item_failure(item) {
            Some(failure) => result == Err::<UnresolvedSelectItem, TranslateError>(failure),
            None => result matches Ok(out) && spec_item_translated(item, out),
        },
{
    match item {
        SqlSelectItem::UnnamedExpr(expression) => match translate_expr(expression) {
            Ok(expr) => Ok(UnresolvedSelectItem { expr, alias: None }),
            Err(error) => Err(error),
        },
        SqlSelectItem::ExprWithAlias { expr: expression, alias } => match translate_expr(expression) {
            Ok(expr) => Ok(UnresolvedSelectItem { expr, alias: Some(alias) }),
            Err(error) => Err(error),
        },
        SqlSelectItem::Other => Err(TranslateError::SelectItem),
    }
}

/// Translates the grouping expressions; modifiers and `ALL` are refused.
fn translate_group_by(group_by: SqlGroupBy) -> (result: Result<Vec<UnresolvedExpr>, TranslateError>)
    ensures
        match spec_group_failure(group_by) {
            Some(failure) => result == Err::<Vec<UnresolvedExpr>, TranslateError>(failure),
            None => result matches Ok(out) && (group_by matches SqlGroupBy::Expressions { expressions, .. }
                && out@.len() == expressions@.len() && forall|i: int|
                0 <= i < out@.len() ==> spec_expr_translated(expressions@[i], #[trigger] out@[i])),
        },
{
    match group_by {
        SqlGroupBy::Expressions { expressions, has_modifiers } => {
            if has_modifiers {
                return Err(TranslateError::GroupByModifiers);
            }
            let ghost items = expressions@;
            assert(items.len() == expressions.len());
            let mut translated: Vec<UnresolvedExpr> = Vec::new();
            let mut i: usize = 0;
            for expression in it: expressions
                invariant
                    items == expressions@,
                    group_by matches SqlGroupBy::Expressions { expressions: e, has_modifiers: m } && e@ == items && !m,
                    it.seq() == items,
                    i == it.index(),
                    i <= items.len(),
                    items.len() <= usize::MAX,
                    translated@.len() == i,
                    forall|k: int|
                        0 <= k < i ==> spec_expr_failure(#[trigger] items[k]) is None && spec_expr_translated(
                            items[k],
                            translated@[k],
                        ),
            {
                assert(expression == items[i as int]);
                match translate_expr(expression) {
                    Ok(out) => {
                        translated.push(out);
                    },
                    Err(error) => {
                        proof {
                            lemma_exprs_failure_skip(items, i as int);
                        }
                        return Err(error);
                    },
                }
                i = i + 1;
            }
            proof {
                lemma_exprs_failure_skip(items, items.len() as int);
            }
            Ok(translated)
        },
        SqlGroupBy::All => Err(TranslateError::GroupByAll),
    }
}

/// The name of the one table of a `FROM` without joins.
fn translate_from(from: Vec<SqlTableWithJoins>) -> (result: Result<String, TranslateError>)
    ensures
        match spec_from_failure(from@) {
            Some(failure) => result == Err::<String, TranslateError>(failure),
            None => result matches Ok(name) && (from@[0].relation matches SqlTableFactor::Table(n) && name@ == n@),
        },
{
    if from.len() != 1 {
        return Err(TranslateError::FromCount(from.len()));
    }
    let ghost entries = from@;
    let mut from = from;
    let table = match from.pop() {
        Some(table) => table,
        None => {
            return Err(TranslateError::FromCount(0));
        },
    };
    assert(table == entries[0]);
    let SqlTableWithJoins { relation, has_joins } = table;
    if has_joins {
        Err(TranslateError::Joins)
    } else {
        match relation {
            SqlTableFactor::Table(name) => Ok(name),
            SqlTableFactor::Other => Err(TranslateError::TableFactor),
        }
    }
}

/// Translates a supported `SELECT`.
fn translate_select(select: SqlSelect) -> (result: Result<UnresolvedPlan, TranslateError>)
    ensures
        match spec_select_failure(select) {
            Some(failure) => result == Err::<UnresolvedPlan, TranslateError>(failure),
            None => result matches Ok(plan) && spec_select_translated(select, plan),
        },
{
    match ensure_supported_select(&select) {
        Ok(()) => {},
        Err(error) => {
            return Err(error);
        },
    }
    let ghost whole = select;
    let SqlSelect { clauses, projection, from, group_by } = select;
    let ghost items = projection@;
    assert(items.len() == projection.len());
    let mut translated: Vec<UnresolvedSelectItem> = Vec::new();
    let mut i: usize = 0;
    for item in it: projection
        invariant
            items == projection@,
            whole == select,
            select.projection@ == items,
            select.clauses@.len() == 0,
            it.seq() == items,
            i == it.index(),
            i <= items.len(),
            items.len() <= usize::MAX,
            translated@.len() == i,
            forall|k: int|
                0 <= k < i ==> spec_item_failure(#[trigger] items[k]) is None && spec_item_translated(
                    items[k],
                    translated@[k],
                ),
    {
        assert(item == items[i as int]);
        match translate_select_item(item) {
            Ok(out) => {
                translated.push(out);
            },
            Err(error) => {
                proof {
                    lemma_items_failure_skip(items, i as int);
                }
                return Err(error);
            },
        }
        i = i + 1;
    }
    proof {
        lemma_items_failure_skip(items, items.len() as int);
    }
    let from = match translate_from(from) {
        Ok(name) => name,
        Err(error) => {
            return Err(error);
        },
    };
    let group_by = match translate_group_by(group_by) {
        Ok(expressions) => expressions,
        Err(error) => {
            return Err(error);
        },
    };
    Ok(UnresolvedPlan::Select { projection: translated, from, group_by })
}

/// Translates a query whose body is a supported `SELECT`.
fn translate_query(query: SqlQuery) -> (result: Result<UnresolvedPlan, TranslateError>)
    ensures
        match spec_statement_failure(SqlStatement::Query(query)) {
            Some(failure) => result == Err::<UnresolvedPlan, TranslateError>(failure),
            None => result matches Ok(plan) && spec_translated(SqlStatement::Query(query), plan),
        },
{
    let SqlQuery { clauses, body } = query;
    if clauses.len() > 0 {
        Err(TranslateError::QueryClause(clauses[0]))
    } else {
        match body {
            SqlSetExpr::Select(select) => translate_select(select),
            SqlSetExpr::Other => Err(TranslateError::QueryBody),
        }
    }
}

/// Translates a parsed statement, or names the first part of it outside the
/// supported subset.
pub fn try_translate(statement: ParsedStatement) -> (result: Result<UnresolvedPlan, TranslateError>)
    ensures
        match spec_statement_failure(statement.0) {
            Some(failure) => result == Err::<UnresolvedPlan, TranslateError>(failure),
            None => result matches Ok(plan) && spec_translated(statement.0, plan),
        },
{
    let ParsedStatement(statement) = statement;
    match statement {
        SqlStatement::Query(query) => translate_query(query),
        SqlStatement::Other => Err(TranslateError::Statement),
    }
}

/// Translates a parsed statement within the supported subset.
pub fn translate(statement: ParsedStatement) -> (plan: UnresolvedPlan)
    requires
        spec_statement_failure(statement.0) is None,
    ensures
        spec_translated(statement.0, plan),
{
    match try_translate(statement) {
        Ok(plan) => plan,
        Err(_) => {
            proof {
                assert(false);
            }
            UnresolvedPlan::Select { projection: Vec::new(), from: String::new(), group_by: Vec::new() }
        },
    }
}

} // verus!
