use db::db_catalog::Database;
use db::db_core::dtype::DataTypeKind;
use db::db_sql::bind::{bind, try_bind, BindError};
use db::db_sql::parse::{
    try_parse, ParseError,
    ArgumentListClause, FunctionClause, ParsedStatement, QueryClause, SelectClause, SqlExpr, SqlFunction,
    SqlFunctionArg, SqlFunctionArguments, SqlGroupBy, SqlQuery, SqlSelect, SqlSelectItem, SqlSetExpr,
    SqlStatement, SqlTableFactor, SqlTableWithJoins,
};
use db::db_sql::translate::{translate, try_translate, TranslateError};
use db::db_types::plan::{
    ResolvedAggregate, ResolvedAggregateFunction, ResolvedExpr, ResolvedPlan, UnresolvedExpr,
    UnresolvedFunctionArgs, UnresolvedPlan,
};

fn identifier(name: &str) -> SqlExpr {
    SqlExpr::Identifier(name.to_string())
}

fn call(name: &str, args: Vec<SqlFunctionArg>) -> SqlExpr {
    SqlExpr::Function(SqlFunction {
        name: name.to_string(),
        clauses: Vec::new(),
        args: SqlFunctionArguments::List { clauses: Vec::new(), args },
    })
}

fn select(projection: Vec<SqlSelectItem>, table: &str, group_by: Vec<SqlExpr>) -> SqlSelect {
    SqlSelect {
        clauses: Vec::new(),
        projection,
        from: vec![SqlTableWithJoins { relation: SqlTableFactor::Table(table.to_string()), has_joins: false }],
        group_by: SqlGroupBy::Expressions { expressions: group_by, has_modifiers: false },
    }
}

fn statement(select: SqlSelect) -> ParsedStatement {
    ParsedStatement(SqlStatement::Query(SqlQuery { clauses: Vec::new(), body: SqlSetExpr::Select(select) }))
}

fn parsed(sql: &str) -> ParsedStatement {
    match try_parse(sql) {
        Ok(statement) => statement,
        Err(error) => panic!("failed to parse {sql}: {error:?}"),
    }
}

fn count_star_query() -> ParsedStatement {
    parsed("SELECT cab_type, count(*) \
                 FROM trips GROUP BY cab_type")
}

fn avg_query() -> ParsedStatement {
    parsed("SELECT passenger_count, avg(total_amount) FROM trips GROUP BY passenger_count")
}

fn trips_db() -> Database {
    let mut db = Database::new();
    db.create_table(
        "trips",
        &[
            ("cab_type", "U8"),
            ("passenger_count", "U8"),
            ("total_amount", "F64"),
        ],
    );
    db
}

#[test]
fn bind_group_by_count_star() {
    let plan = bind(translate(count_star_query()), &trips_db());
    let ResolvedPlan::Select { projection, from, group_by } = plan;

    assert_eq!(from.id, 0);
    assert_eq!(from.name, "trips");
    assert_eq!(from.columns.len(), 3);
    assert!(matches!(
        &projection[0].expr,
        ResolvedExpr::Column(column)
            if column.name == "cab_type"
                && column.index == 0
                && column.data_type == DataTypeKind::U8
    ));
    assert!(matches!(
        &projection[1].expr,
        ResolvedExpr::Aggregate(
            ResolvedAggregate {
                function:
                    ResolvedAggregateFunction::CountStar,
                data_type,
            }
        ) if *data_type == DataTypeKind::U64
    ));
    assert!(matches!(
        &group_by[0],
        ResolvedExpr::Column(column)
            if column.name == "cab_type"
                && column.index == 0
                && column.data_type == DataTypeKind::U8
    ));
}

#[test]
fn bind_group_by_avg() {
    let plan = bind(translate(avg_query()), &trips_db());
    let ResolvedPlan::Select { projection, from, group_by } = plan;

    assert_eq!(from.name, "trips");
    assert!(matches!(
        &projection[0].expr,
        ResolvedExpr::Column(column)
            if column.name == "passenger_count"
                && column.index == 1
                && column.data_type == DataTypeKind::U8
    ));
    assert!(matches!(
        &projection[1].expr,
        ResolvedExpr::Aggregate(
            ResolvedAggregate {
                function:
                    ResolvedAggregateFunction::Avg {
                        column,
                    },
                data_type,
            }
        )
            if *data_type == DataTypeKind::F64
                && column.name == "total_amount"
                && column.index == 2
                && column.data_type
                    == DataTypeKind::F64
    ));
    assert!(matches!(
        &group_by[0],
        ResolvedExpr::Column(column)
            if column.name == "passenger_count"
                && column.index == 1
                && column.data_type == DataTypeKind::U8
    ));
}

#[test]
fn bind_avg_non_numeric_argument_error() {
    let mut database = Database::new();
    database.create_table("trips", &[("passenger_count", "U8"), ("total_amount", "BOOL")]);

    let plan = translate(avg_query());

    let result = try_bind(plan, &database);
    assert!(matches!(result, Err(BindError::AvgNonNumeric { data_type: DataTypeKind::BOOL })));
}

#[test]
fn query_group_by_count_star() {
    let plan = translate(count_star_query());
    let UnresolvedPlan::Select { projection, from, group_by } = plan;

    assert_eq!(projection.len(), 2);
    assert!(matches!(
        &projection[0].expr,
        UnresolvedExpr::Column(column)
            if column == "cab_type"
    ));
    assert!(projection[0].alias.is_none());
    assert!(matches!(
        &projection[1].expr,
        UnresolvedExpr::Function {
            name,
            args: UnresolvedFunctionArgs::Star,
        } if name == "count"
    ));
    assert_eq!(from, "trips");
    assert_eq!(group_by.len(), 1);
    assert!(matches!(
        &group_by[0],
        UnresolvedExpr::Column(column)
            if column == "cab_type"
    ));
}

#[test]
fn query_group_by_avg() {
    let plan = translate(avg_query());
    let UnresolvedPlan::Select { projection, from, group_by } = plan;

    assert_eq!(projection.len(), 2);
    if let UnresolvedExpr::Function {
        name,
        args: UnresolvedFunctionArgs::Exprs(arguments),
    } = &projection[1].expr
    {
        assert_eq!(name, "avg");
        assert_eq!(arguments.len(), 1);
        assert!(matches!(
            &arguments[0],
            UnresolvedExpr::Column(column)
                if column == "total_amount"
        ));
    } else {
        panic!("expected avg function");
    }
    assert_eq!(from, "trips");
    assert_eq!(group_by.len(), 1);
    assert!(matches!(
        &group_by[0],
        UnresolvedExpr::Column(column)
            if column == "passenger_count"
    ));
}

#[test]
fn translate_lowercases_function_names_and_keeps_aliases() {
    let plan = translate(statement(select(
        vec![SqlSelectItem::ExprWithAlias {
            expr: call("COUNT", vec![SqlFunctionArg::UnnamedWildcard]),
            alias: "n".to_string(),
        }],
        "trips",
        Vec::new(),
    )));
    let UnresolvedPlan::Select { projection, .. } = plan;
    assert!(matches!(&projection[0].expr, UnresolvedExpr::Function { name, .. } if name == "count"));
    assert_eq!(projection[0].alias.as_deref(), Some("n"));
}

#[test]
fn translate_reports_first_unsupported_part() {
    let other = try_translate(ParsedStatement(SqlStatement::Other));
    assert!(matches!(other, Err(TranslateError::Statement)));

    let with_order = try_translate(ParsedStatement(SqlStatement::Query(SqlQuery {
        clauses: vec![QueryClause::OrderBy, QueryClause::Limit],
        body: SqlSetExpr::Other,
    })));
    assert!(matches!(with_order, Err(TranslateError::QueryClause(QueryClause::OrderBy))));

    let body = try_translate(ParsedStatement(SqlStatement::Query(SqlQuery {
        clauses: Vec::new(),
        body: SqlSetExpr::Other,
    })));
    assert!(matches!(body, Err(TranslateError::QueryBody)));

    let mut distinct = select(vec![SqlSelectItem::UnnamedExpr(identifier("a"))], "t", Vec::new());
    distinct.clauses = vec![SelectClause::Distinct, SelectClause::Where];
    assert!(matches!(
        try_translate(statement(distinct)),
        Err(TranslateError::SelectClause(SelectClause::Distinct))
    ));

    let wildcard = select(vec![SqlSelectItem::Other], "t", Vec::new());
    assert!(matches!(try_translate(statement(wildcard)), Err(TranslateError::SelectItem)));

    let expression = select(vec![SqlSelectItem::UnnamedExpr(SqlExpr::Other)], "t", Vec::new());
    assert!(matches!(try_translate(statement(expression)), Err(TranslateError::Expression)));

    let mut two_tables = select(vec![SqlSelectItem::UnnamedExpr(identifier("a"))], "t", Vec::new());
    two_tables.from.push(SqlTableWithJoins { relation: SqlTableFactor::Table("u".to_string()), has_joins: false });
    assert!(matches!(try_translate(statement(two_tables)), Err(TranslateError::FromCount(2))));

    let mut joined = select(vec![SqlSelectItem::UnnamedExpr(identifier("a"))], "t", Vec::new());
    joined.from[0].has_joins = true;
    assert!(matches!(try_translate(statement(joined)), Err(TranslateError::Joins)));

    let mut derived = select(vec![SqlSelectItem::UnnamedExpr(identifier("a"))], "t", Vec::new());
    derived.from[0].relation = SqlTableFactor::Other;
    assert!(matches!(try_translate(statement(derived)), Err(TranslateError::TableFactor)));

    let mut all = select(vec![SqlSelectItem::UnnamedExpr(identifier("a"))], "t", Vec::new());
    all.group_by = SqlGroupBy::All;
    assert!(matches!(try_translate(statement(all)), Err(TranslateError::GroupByAll)));

    let mut rollup = select(vec![SqlSelectItem::UnnamedExpr(identifier("a"))], "t", Vec::new());
    rollup.group_by = SqlGroupBy::Expressions { expressions: vec![identifier("a")], has_modifiers: true };
    assert!(matches!(try_translate(statement(rollup)), Err(TranslateError::GroupByModifiers)));
}

#[test]
fn translate_reports_unsupported_function_parts() {
    let windowed = SqlExpr::Function(SqlFunction {
        name: "count".to_string(),
        clauses: vec![FunctionClause::Over],
        args: SqlFunctionArguments::List { clauses: Vec::new(), args: vec![SqlFunctionArg::UnnamedWildcard] },
    });
    let plan = select(vec![SqlSelectItem::UnnamedExpr(windowed)], "t", Vec::new());
    assert!(matches!(
        try_translate(statement(plan)),
        Err(TranslateError::FunctionClause(FunctionClause::Over))
    ));

    let distinct_args = SqlExpr::Function(SqlFunction {
        name: "count".to_string(),
        clauses: Vec::new(),
        args: SqlFunctionArguments::List {
            clauses: vec![ArgumentListClause::DuplicateTreatment],
            args: vec![SqlFunctionArg::UnnamedExpr(identifier("a"))],
        },
    });
    let plan = select(vec![SqlSelectItem::UnnamedExpr(distinct_args)], "t", Vec::new());
    assert!(matches!(
        try_translate(statement(plan)),
        Err(TranslateError::ArgumentListClause(ArgumentListClause::DuplicateTreatment))
    ));

    let no_list = SqlExpr::Function(SqlFunction {
        name: "now".to_string(),
        clauses: Vec::new(),
        args: SqlFunctionArguments::Other,
    });
    let plan = select(vec![SqlSelectItem::UnnamedExpr(no_list)], "t", Vec::new());
    assert!(matches!(try_translate(statement(plan)), Err(TranslateError::FunctionArguments)));

    let star_among_others = call(
        "count",
        vec![SqlFunctionArg::UnnamedWildcard, SqlFunctionArg::UnnamedExpr(identifier("a"))],
    );
    let plan = select(vec![SqlSelectItem::UnnamedExpr(star_among_others)], "t", Vec::new());
    assert!(matches!(try_translate(statement(plan)), Err(TranslateError::FunctionArgument)));

    let nested_failure = call("avg", vec![SqlFunctionArg::UnnamedExpr(SqlExpr::Other)]);
    let plan = select(vec![SqlSelectItem::UnnamedExpr(nested_failure)], "t", Vec::new());
    assert!(matches!(try_translate(statement(plan)), Err(TranslateError::Expression)));
}

#[test]
fn bind_reports_each_error() {
    let db = trips_db();
    let bind_one = |projection: Vec<SqlSelectItem>, table: &str, group_by: Vec<SqlExpr>| {
        try_bind(translate(statement(select(projection, table, group_by))), &db)
    };

    let missing_table = bind_one(vec![SqlSelectItem::UnnamedExpr(identifier("a"))], "cars", Vec::new());
    assert!(matches!(missing_table, Err(BindError::TableNotFound { table_name }) if table_name == "cars"));

    let missing_column = bind_one(vec![SqlSelectItem::UnnamedExpr(identifier("fare"))], "trips", Vec::new());
    assert!(matches!(
        missing_column,
        Err(BindError::ColumnNotFound { table_name, column_name }) if table_name == "trips" && column_name == "fare"
    ));

    let unknown = bind_one(
        vec![SqlSelectItem::UnnamedExpr(call("sum", vec![SqlFunctionArg::UnnamedExpr(identifier("cab_type"))]))],
        "trips",
        Vec::new(),
    );
    assert!(matches!(unknown, Err(BindError::UnsupportedFunction { name }) if name == "sum"));

    let avg_star = bind_one(
        vec![SqlSelectItem::UnnamedExpr(call("avg", vec![SqlFunctionArg::UnnamedWildcard]))],
        "trips",
        Vec::new(),
    );
    assert!(matches!(avg_star, Err(BindError::AvgStar)));

    let avg_two = bind_one(
        vec![SqlSelectItem::UnnamedExpr(call(
            "avg",
            vec![
                SqlFunctionArg::UnnamedExpr(identifier("cab_type")),
                SqlFunctionArg::UnnamedExpr(identifier("total_amount")),
            ],
        ))],
        "trips",
        Vec::new(),
    );
    assert!(matches!(avg_two, Err(BindError::AvgArity { count: 2 })));

    let count_none = bind_one(
        vec![SqlSelectItem::UnnamedExpr(call("count", Vec::new()))],
        "trips",
        Vec::new(),
    );
    assert!(matches!(count_none, Err(BindError::CountArity { count: 0 })));

    let nested = bind_one(
        vec![SqlSelectItem::UnnamedExpr(call(
            "count",
            vec![SqlFunctionArg::UnnamedExpr(call("avg", vec![SqlFunctionArg::UnnamedExpr(identifier("total_amount"))]))],
        ))],
        "trips",
        Vec::new(),
    );
    assert!(matches!(nested, Err(BindError::NestedFunction)));

    let grouped_aggregate = bind_one(
        vec![SqlSelectItem::UnnamedExpr(identifier("cab_type"))],
        "trips",
        vec![call("count", vec![SqlFunctionArg::UnnamedWildcard])],
    );
    assert!(matches!(grouped_aggregate, Err(BindError::AggregateInGroupBy)));

    let ungrouped = bind_one(
        vec![
            SqlSelectItem::UnnamedExpr(identifier("passenger_count")),
            SqlSelectItem::UnnamedExpr(call("count", vec![SqlFunctionArg::UnnamedWildcard])),
        ],
        "trips",
        vec![identifier("cab_type")],
    );
    assert!(matches!(ungrouped, Err(BindError::NotInGroupBy)));

    let plain_not_grouped = bind_one(
        vec![SqlSelectItem::UnnamedExpr(identifier("passenger_count"))],
        "trips",
        vec![identifier("cab_type")],
    );
    assert!(matches!(plain_not_grouped, Err(BindError::NotInGroupBy)));

    let mut twice = Database::new();
    twice.create_table("t", &[("a", "U8"), ("a", "U32")]);
    let duplicate = try_bind(
        translate(statement(select(vec![SqlSelectItem::UnnamedExpr(identifier("a"))], "t", Vec::new()))),
        &twice,
    );
    assert!(matches!(duplicate, Err(BindError::DuplicateColumnName { column_name }) if column_name == "a"));
}

#[test]
fn bind_plain_projection_without_grouping() {
    let plan = bind(
        translate(statement(select(
            vec![
                SqlSelectItem::UnnamedExpr(identifier("total_amount")),
                SqlSelectItem::UnnamedExpr(identifier("cab_type")),
            ],
            "trips",
            Vec::new(),
        ))),
        &trips_db(),
    );
    let ResolvedPlan::Select { projection, group_by, .. } = plan;
    assert!(group_by.is_empty());
    assert!(matches!(&projection[0].expr, ResolvedExpr::Column(c) if c.index == 2));
    assert!(matches!(&projection[1].expr, ResolvedExpr::Column(c) if c.index == 0));
}

#[test]
fn parse_reports_syntax_errors_and_statement_counts() {
    assert!(matches!(try_parse("SELEC x FROM t"), Err(ParseError::Syntax(message)) if !message.is_empty()));
    assert!(matches!(try_parse("SELECT a FROM t; SELECT b FROM t"), Err(ParseError::StatementCount(2))));
    assert!(matches!(try_parse(""), Err(ParseError::StatementCount(0))));
}

#[test]
fn parse_reads_the_parts_translation_reads() {
    let ParsedStatement(statement) = parsed("SELECT x AS y, count(DISTINCT z) FROM t WHERE x = 1 GROUP BY x ORDER BY x");
    let SqlStatement::Query(query) = statement else { panic!("expected a query") };
    assert_eq!(query.clauses, vec![QueryClause::OrderBy]);
    let SqlSetExpr::Select(select) = query.body else { panic!("expected a select") };
    assert_eq!(select.clauses, vec![SelectClause::Where]);
    assert!(matches!(&select.projection[0], SqlSelectItem::ExprWithAlias { expr: SqlExpr::Identifier(x), alias } if x == "x" && alias == "y"));
    match &select.projection[1] {
        SqlSelectItem::UnnamedExpr(SqlExpr::Function(function)) => {
            assert_eq!(function.name, "count");
            assert!(function.clauses.is_empty());
            match &function.args {
                SqlFunctionArguments::List { clauses, args } => {
                    assert_eq!(clauses, &vec![ArgumentListClause::DuplicateTreatment]);
                    assert!(matches!(&args[0], SqlFunctionArg::UnnamedExpr(SqlExpr::Identifier(z)) if z == "z"));
                }
                SqlFunctionArguments::Other => panic!("expected an argument list"),
            }
        }
        _ => panic!("expected a function call"),
    }
    assert!(matches!(&select.from[0], SqlTableWithJoins { relation: SqlTableFactor::Table(t), has_joins: false } if t == "t"));
    assert!(matches!(&select.group_by, SqlGroupBy::Expressions { expressions, has_modifiers: false } if expressions.len() == 1));
}

#[test]
fn parsed_unsupported_clauses_are_refused_in_order() {
    assert!(matches!(
        try_translate(parsed("SELECT DISTINCT a FROM t WHERE a = 1")),
        Err(TranslateError::SelectClause(SelectClause::Distinct))
    ));
    assert!(matches!(
        try_translate(parsed("SELECT count(a) FILTER (WHERE a > 1) FROM t")),
        Err(TranslateError::FunctionClause(FunctionClause::Filter))
    ));
    assert!(matches!(try_translate(parsed("INSERT INTO t VALUES (1)")), Err(TranslateError::Statement)));
}

#[test]
fn translate_lowercases_parsed_function_names() {
    let plan = translate(parsed("SELECT COUNT(*) FROM trips"));
    match plan {
        UnresolvedPlan::Select { projection, .. } => match &projection[0].expr {
            UnresolvedExpr::Function { name, .. } => assert_eq!(name, "count"),
            _ => panic!("expected a function"),
        },
    }
}
