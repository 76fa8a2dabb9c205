use auroradb::engine::aggregate::{
    apply_having, evaluate_aggregate_expression, execute_aggregation, expression_to_column_name,
    group_rows_by_expressions, AggregateValue,
};
use auroradb::engine::ast::{
    Assignment, BinaryOperator, ColumnDefinition, CreateTableQuery, DeleteQuery, DropTableQuery, Expression,
    FromClause, FunctionCall, GroupByClause, InsertQuery, JoinClause, JoinType, OrderByItem, Query, SelectItem,
    SelectQuery, TableConstraint, UpdateQuery, WindowFunction,
};
use auroradb::engine::catalog::TableCatalog;
use auroradb::engine::database::{
    finish_grouped, finish_windowed, settle_exact, should_cache_query, validate_table_schema, AuroraDB, QueryOutput,
    SelectOutcome, TableSchema, UserContext,
};
use auroradb::engine::failure::{AggregateFunction, EngineError};
use auroradb::engine::rows::{apply_where_clause, perform_join, project_row, Row};
use auroradb::engine::values::{
    compare_values, max_of_values, min_of_values, values_equal, DataType, DataValue, Literal, RealNumber, ValueOrder,
};
use auroradb::engine::window::{compute_window_function, order_rows};
use auroradb::errors::ErrorCode;
use auroradb::text::StringMap;

fn text(s: &str) -> DataValue {
    DataValue::Text(s.to_string())
}

fn real_value(x: f64) -> DataValue {
    DataValue::Real(RealNumber { bits: x.to_bits() })
}

fn row(pairs: &[(&str, DataValue)]) -> Row {
    let mut r: Row = StringMap::new();
    for (k, v) in pairs {
        r.insert(k.to_string(), v.clone());
    }
    r
}

fn ident(name: &str) -> Expression {
    Expression::Identifier(name.to_string())
}

fn int_lit(i: i64) -> Expression {
    Expression::Literal(Literal::Integer(i))
}

fn str_lit(s: &str) -> Expression {
    Expression::Literal(Literal::String(s.to_string()))
}

fn call(name: &str, args: Vec<Expression>) -> Expression {
    Expression::Function(FunctionCall { name: name.to_string(), arguments: args })
}

fn item(expr: Expression) -> SelectItem {
    SelectItem::Expression { expr, alias: None }
}

fn user() -> UserContext {
    UserContext {
        user_id: "u1".to_string(),
        username: "alice".to_string(),
        roles: vec!["admin".to_string()],
        client_ip: None,
        session_id: "s1".to_string(),
    }
}

fn column(name: &str, data_type: DataType, nullable: bool) -> ColumnDefinition {
    ColumnDefinition { name: name.to_string(), data_type, nullable, default: None }
}

fn users_table() -> CreateTableQuery {
    CreateTableQuery {
        name: "users".to_string(),
        columns: vec![column("id", DataType::Integer, false), column("name", DataType::Text, false)],
        constraints: vec![TableConstraint::PrimaryKey(vec!["id".to_string()])],
    }
}

fn value(r: &Row, k: &str) -> Option<DataValue> {
    r.get(k).cloned()
}

fn select(table: &str, items: Vec<SelectItem>) -> SelectQuery {
    SelectQuery {
        select_list: items,
        from_clause: FromClause { table: table.to_string(), alias: None, joins: vec![] },
        where_clause: None,
        group_by: None,
        having: None,
        order_by: None,
        limit: None,
    }
}

fn insert_users(db: &mut AuroraDB, rows: &[(i64, &str)]) -> Result<QueryOutput, EngineError> {
    let values = rows.iter().map(|(i, n)| vec![int_lit(*i), str_lit(n)]).collect();
    db.execute_query(Query::Insert(InsertQuery { table: "users".to_string(), columns: vec![], values }), &user())
}

fn selected_rows(out: Result<QueryOutput, EngineError>) -> Vec<Row> {
    match out {
        Ok(QueryOutput::Selected(SelectOutcome::Rows(r))) => r,
        other => panic!("unexpected output: {:?}", other),
    }
}

#[test]
fn test_create_and_drop_table() {
    let mut catalog = TableCatalog::new("/tmp/catalog".to_string());
    catalog.create_table(users_table()).unwrap();
    assert!(catalog.table_exists("users"));
    let metadata = catalog.get_table("users").unwrap();
    assert_eq!(metadata.name, "users");
    assert_eq!(metadata.columns.len(), 2);
    catalog.drop_table(&DropTableQuery { name: "users".to_string(), if_exists: false }).unwrap();
    assert!(!catalog.table_exists("users"));
}

#[test]
fn test_data_validation() {
    let mut catalog = TableCatalog::new("/tmp/catalog".to_string());
    let create = CreateTableQuery {
        name: "test_table".to_string(),
        columns: vec![column("id", DataType::Integer, false), column("name", DataType::Text, false)],
        constraints: vec![],
    };
    catalog.create_table(create).unwrap();
    let valid = row(&[("id", DataValue::Integer(1)), ("name", text("Alice"))]);
    assert!(catalog.validate_data("test_table", &valid).is_ok());
    let invalid = row(&[("id", text("not_an_integer")), ("name", text("Alice"))]);
    assert!(catalog.validate_data("test_table", &invalid).is_err());
    let missing = row(&[("id", DataValue::Integer(1))]);
    assert!(catalog.validate_data("test_table", &missing).is_err());
}

#[test]
fn catalog_refuses_duplicates_and_missing_tables() {
    let mut catalog = TableCatalog::new("/tmp/catalog".to_string());
    catalog.create_table(users_table()).unwrap();
    assert!(matches!(catalog.create_table(users_table()), Err(EngineError::TableExists(n)) if n == "users"));
    let missing = DropTableQuery { name: "ghosts".to_string(), if_exists: false };
    assert!(matches!(catalog.drop_table(&missing), Err(EngineError::TableMissing(n)) if n == "ghosts"));
    let optional = DropTableQuery { name: "ghosts".to_string(), if_exists: true };
    assert!(catalog.drop_table(&optional).is_ok());
    assert_eq!(catalog.get_column("users", "name").unwrap().unwrap().ordinal_position, 1);
    assert!(catalog.get_column("users", "age").unwrap().is_none());
    assert!(catalog.get_columns("ghosts").is_err());
    let stats = catalog.stats(42);
    assert_eq!(stats.total_tables, 1);
    assert_eq!(stats.total_columns, 2);
    assert_eq!(stats.catalog_size_bytes, 42);
    assert_eq!(catalog.list_tables(), vec!["users".to_string()]);
}

#[test]
fn validation_names_the_failing_column() {
    let mut catalog = TableCatalog::new("/tmp/catalog".to_string());
    catalog.create_table(users_table()).unwrap();
    let null_name = row(&[("id", DataValue::Integer(1)), ("name", DataValue::Null)]);
    assert!(matches!(catalog.validate_data("users", &null_name), Err(EngineError::TypeMismatch)));
    let no_name = row(&[("id", DataValue::Integer(1))]);
    assert!(matches!(catalog.validate_data("users", &no_name), Err(EngineError::RequiredColumn(c)) if c == "name"));
    assert!(matches!(catalog.validate_data("nope", &no_name), Err(EngineError::TableMissing(_))));
}

#[test]
fn insert_then_select_star_returns_the_rows_in_order() {
    let mut db = AuroraDB::new("/tmp/aurora".to_string());
    db.execute_query(Query::CreateTable(users_table()), &user()).unwrap();
    match insert_users(&mut db, &[(1, "Alice"), (2, "Bob")]).unwrap() {
        QueryOutput::Done(r) => assert_eq!(r.rows_affected, Some(2)),
        other => panic!("unexpected output: {:?}", other),
    }
    let rows = selected_rows(db.execute_query(Query::Select(select("users", vec![SelectItem::Wildcard])), &user()));
    assert_eq!(rows.len(), 2);
    assert_eq!(value(&rows[0], "id"), Some(DataValue::Integer(1)));
    assert_eq!(value(&rows[1], "name"), Some(text("Bob")));
}

#[test]
fn insert_errors_keep_the_rows_stored_before_them() {
    let mut db = AuroraDB::new("/tmp/aurora".to_string());
    db.execute_query(Query::CreateTable(users_table()), &user()).unwrap();
    let values = vec![vec![int_lit(1), str_lit("Alice")], vec![int_lit(2)], vec![int_lit(3), str_lit("Cy")]];
    let out = db.execute_query(Query::Insert(InsertQuery { table: "users".to_string(), columns: vec![], values }), &user());
    assert!(matches!(out, Err(EngineError::ColumnCountMismatch { columns: 2, values: 1 })));
    let rows = selected_rows(db.execute_query(Query::Select(select("users", vec![SelectItem::Wildcard])), &user()));
    assert_eq!(rows.len(), 1);
    let bad_type = vec![vec![str_lit("x"), str_lit("Bob")]];
    let out = db.execute_query(
        Query::Insert(InsertQuery { table: "users".to_string(), columns: vec![], values: bad_type }),
        &user(),
    );
    assert!(matches!(out, Err(EngineError::TypeMismatch)));
    let unknown = InsertQuery { table: "users".to_string(), columns: vec!["age".to_string()], values: vec![vec![int_lit(5)]] };
    let out = db.execute_query(Query::Insert(unknown), &user());
    assert!(matches!(out, Err(EngineError::UnknownColumn { column, table }) if column == "age" && table == "users"));
    let missing = InsertQuery { table: "ghosts".to_string(), columns: vec![], values: vec![] };
    assert!(matches!(db.execute_query(Query::Insert(missing), &user()), Err(EngineError::TableMissing(_))));
}

#[test]
fn where_equality_filters_and_other_conditions_pass_everything() {
    let rows = vec![row(&[("id", DataValue::Integer(1))]), row(&[("id", DataValue::Integer(2))])];
    let eq = Expression::BinaryOp { left: Box::new(ident("id")), op: BinaryOperator::Equal, right: Box::new(int_lit(2)) };
    let kept = apply_where_clause(&rows, &eq);
    assert_eq!(kept.len(), 1);
    assert_eq!(value(&kept[0], "id"), Some(DataValue::Integer(2)));
    let gt = Expression::BinaryOp { left: Box::new(ident("id")), op: BinaryOperator::GreaterThan, right: Box::new(int_lit(5)) };
    assert_eq!(apply_where_clause(&rows, &gt).len(), 2);
    let text_vs_int = Expression::BinaryOp { left: Box::new(ident("id")), op: BinaryOperator::Equal, right: Box::new(str_lit("1")) };
    assert_eq!(apply_where_clause(&rows, &text_vs_int).len(), 0);
}

#[test]
fn update_and_delete_follow_the_primary_key() {
    let mut db = AuroraDB::new("/tmp/aurora".to_string());
    db.execute_query(Query::CreateTable(users_table()), &user()).unwrap();
    insert_users(&mut db, &[(1, "Alice"), (2, "Bob"), (3, "Cy")]).unwrap();
    let update = UpdateQuery {
        table: "users".to_string(),
        assignments: vec![Assignment { column: "name".to_string(), value: str_lit("Bobby") }],
        where_clause: Some(Expression::BinaryOp { left: Box::new(ident("id")), op: BinaryOperator::Equal, right: Box::new(int_lit(2)) }),
    };
    match db.execute_query(Query::Update(update), &user()).unwrap() {
        QueryOutput::Done(r) => assert_eq!(r.rows_affected, Some(1)),
        other => panic!("unexpected output: {:?}", other),
    }
    let delete = DeleteQuery {
        table: "users".to_string(),
        where_clause: Some(Expression::BinaryOp { left: Box::new(ident("id")), op: BinaryOperator::Equal, right: Box::new(int_lit(1)) }),
    };
    match db.execute_query(Query::Delete(delete), &user()).unwrap() {
        QueryOutput::Done(r) => assert_eq!(r.rows_affected, Some(1)),
        other => panic!("unexpected output: {:?}", other),
    }
    let rows = selected_rows(db.execute_query(Query::Select(select("users", vec![SelectItem::Wildcard])), &user()));
    assert_eq!(rows.len(), 2);
    assert_eq!(value(&rows[0], "name"), Some(text("Bobby")));
    assert_eq!(value(&rows[1], "id"), Some(DataValue::Integer(3)));
    let bad = UpdateQuery {
        table: "users".to_string(),
        assignments: vec![Assignment { column: "name".to_string(), value: ident("other") }],
        where_clause: None,
    };
    assert!(matches!(db.execute_query(Query::Update(bad), &user()), Err(EngineError::UnsupportedExpression)));
    let all = DeleteQuery { table: "users".to_string(), where_clause: None };
    match db.execute_query(Query::Delete(all), &user()).unwrap() {
        QueryOutput::Done(r) => assert_eq!(r.rows_affected, Some(2)),
        other => panic!("unexpected output: {:?}", other),
    }
}

#[test]
fn select_projects_columns_and_applies_limit() {
    let mut db = AuroraDB::new("/tmp/aurora".to_string());
    db.execute_query(Query::CreateTable(users_table()), &user()).unwrap();
    insert_users(&mut db, &[(1, "Alice"), (2, "Bob"), (3, "Cy")]).unwrap();
    let mut q = select("users", vec![item(ident("name")), item(ident("missing"))]);
    q.limit = Some(2);
    let rows = selected_rows(db.execute_query(Query::Select(q), &user()));
    assert_eq!(rows.len(), 2);
    assert_eq!(rows[0].len(), 1);
    assert_eq!(value(&rows[1], "name"), Some(text("Bob")));
    assert!(matches!(
        db.execute_query(Query::Select(select("ghosts", vec![SelectItem::Wildcard])), &user()),
        Err(EngineError::TableMissing(_))
    ));
    assert!(matches!(db.execute_query(Query::Other("VACUUM".to_string()), &user()), Err(EngineError::UnsupportedStatement)));
}

#[test]
fn joins_qualify_right_columns_and_left_join_fills_nulls() {
    let left = vec![row(&[("id", DataValue::Integer(1))]), row(&[("id", DataValue::Integer(2))])];
    let right = vec![row(&[("user_id", DataValue::Integer(1)), ("total", DataValue::Integer(10))])];
    let cond = Expression::BinaryOp { left: Box::new(ident("id")), op: BinaryOperator::Equal, right: Box::new(ident("o.user_id")) };
    let inner = JoinClause { join_type: JoinType::Inner, table: "orders".to_string(), alias: Some("o".to_string()), condition: cond };
    let joined = perform_join(&left, &right, &inner).unwrap();
    assert_eq!(joined.len(), 1);
    assert_eq!(value(&joined[0], "o.total"), Some(DataValue::Integer(10)));
    let cond = Expression::BinaryOp { left: Box::new(ident("id")), op: BinaryOperator::Equal, right: Box::new(ident("user_id")) };
    let outer = JoinClause { join_type: JoinType::Left, table: "orders".to_string(), alias: None, condition: cond };
    let joined = perform_join(&left, &right, &outer).unwrap();
    assert_eq!(joined.len(), 2);
    assert_eq!(value(&joined[1], "orders.total"), Some(DataValue::Null));
    let cond = Expression::BinaryOp { left: Box::new(ident("a.b.c")), op: BinaryOperator::Equal, right: Box::new(int_lit(1)) };
    let broken = JoinClause { join_type: JoinType::Inner, table: "orders".to_string(), alias: None, condition: cond };
    assert!(matches!(perform_join(&left, &right, &broken), Err(EngineError::ColumnNotFound(c)) if c == "a.b.c"));
}

#[test]
fn aggregates_count_min_max_and_leave_sums_to_the_caller() {
    let rows = vec![
        row(&[("g", text("a")), ("x", DataValue::Integer(3))]),
        row(&[("g", text("b")), ("x", DataValue::Null)]),
        row(&[("g", text("a")), ("x", DataValue::Integer(7))]),
    ];
    let count_all = evaluate_aggregate_expression(&call("count", vec![Expression::Asterisk]), &rows).unwrap();
    assert!(matches!(count_all, AggregateValue::Value(DataValue::Integer(3))));
    let count_x = evaluate_aggregate_expression(&call("COUNT", vec![ident("x")]), &rows).unwrap();
    assert!(matches!(count_x, AggregateValue::Value(DataValue::Integer(2))));
    let min = evaluate_aggregate_expression(&call("min", vec![ident("x")]), &rows).unwrap();
    assert!(matches!(min, AggregateValue::Value(DataValue::Integer(3))));
    let max = evaluate_aggregate_expression(&call("Max", vec![ident("x")]), &rows).unwrap();
    assert!(matches!(max, AggregateValue::Value(DataValue::Integer(7))));
    match evaluate_aggregate_expression(&call("sum", vec![ident("x")]), &rows).unwrap() {
        AggregateValue::TotalOrNull(n) => assert_eq!(n, vec![DataValue::Integer(3), DataValue::Integer(7)]),
        other => panic!("unexpected: {:?}", other),
    }
    assert!(matches!(
        evaluate_aggregate_expression(&call("SUM", vec![]), &rows),
        Err(EngineError::MissingArgument(AggregateFunction::Sum))
    ));
    assert!(matches!(
        evaluate_aggregate_expression(&call("median", vec![ident("x")]), &rows),
        Err(EngineError::UnknownAggregate(n)) if n == "median"
    ));
    let groups = group_rows_by_expressions(&rows, &vec![ident("g")]).unwrap();
    assert_eq!(groups.len(), 2);
    assert_eq!(groups[0].1.len(), 2);
    assert_eq!(groups[1].1.len(), 1);
}

#[test]
fn group_by_and_having_keep_matching_groups() {
    let rows = vec![
        row(&[("g", text("a")), ("x", DataValue::Integer(3))]),
        row(&[("g", text("b")), ("x", DataValue::Integer(4))]),
        row(&[("g", text("a")), ("x", DataValue::Integer(7))]),
    ];
    let items = vec![item(ident("g")), item(call("COUNT", vec![Expression::Asterisk]))];
    let grouped = execute_aggregation(&items, &Some(GroupByClause { expressions: vec![ident("g")] }), rows).unwrap();
    let plain = settle_exact(&grouped).unwrap();
    assert_eq!(plain.len(), 2);
    assert_eq!(value(&plain[0], "COUNT"), Some(DataValue::Integer(2)));
    let having = Expression::BinaryOp { left: Box::new(ident("COUNT")), op: BinaryOperator::GreaterThan, right: Box::new(int_lit(1)) };
    let kept = apply_having(plain, &having);
    assert_eq!(kept.len(), 1);
    assert_eq!(value(&kept[0], "g"), Some(text("a")));
    let done = finish_grouped(kept, &None);
    assert_eq!(done.rows.unwrap().len(), 1);
    let summed = vec![{
        let mut m = StringMap::new();
        m.insert("SUM".to_string(), AggregateValue::TotalOrNull(vec![]));
        m
    }];
    assert!(settle_exact(&summed).is_none());
    assert_eq!(expression_to_column_name(&int_lit(1)), "literal");
}

#[test]
fn window_functions_number_rank_and_shift_within_partitions() {
    let rows = vec![
        row(&[("dept", text("a")), ("pay", DataValue::Integer(30))]),
        row(&[("dept", text("b")), ("pay", DataValue::Integer(10))]),
        row(&[("dept", text("a")), ("pay", DataValue::Integer(20))]),
    ];
    let window = |name: &str, args: Vec<Expression>| WindowFunction {
        function: FunctionCall { name: name.to_string(), arguments: args },
        partition_by: vec![ident("dept")],
        order_by: vec![OrderByItem { expr: ident("pay"), ascending: true }],
        frame_clause: None,
    };
    let rn = compute_window_function(&window("row_number", vec![]), &rows, 0).unwrap();
    assert!(matches!(rn, AggregateValue::Value(DataValue::Integer(2))));
    let rank = compute_window_function(&window("RANK", vec![]), &rows, 2).unwrap();
    assert!(matches!(rank, AggregateValue::Value(DataValue::Integer(1))));
    let dense = compute_window_function(&window("DENSE_RANK", vec![]), &rows, 0).unwrap();
    assert!(matches!(dense, AggregateValue::Value(DataValue::Integer(2))));
    let lead = compute_window_function(&window("LEAD", vec![Expression::Column("pay".to_string())]), &rows, 0).unwrap();
    assert!(matches!(lead, AggregateValue::Value(DataValue::Null)));
    let lag = compute_window_function(&window("LAG", vec![Expression::Column("pay".to_string())]), &rows, 0).unwrap();
    assert!(matches!(lag, AggregateValue::Value(DataValue::Integer(20))));
    let first = compute_window_function(&window("FIRST_VALUE", vec![Expression::Column("pay".to_string())]), &rows, 0).unwrap();
    assert!(matches!(first, AggregateValue::Value(DataValue::Integer(20))));
    let count = compute_window_function(&window("COUNT", vec![Expression::Column("pay".to_string())]), &rows, 1).unwrap();
    assert!(matches!(count, AggregateValue::Value(DataValue::Integer(1))));
    assert!(matches!(
        compute_window_function(&window("NTILE", vec![]), &rows, 0),
        Err(EngineError::UnsupportedWindowFunction(n)) if n == "NTILE"
    ));
}

#[test]
fn ordering_is_stable_and_limit_cuts() {
    let rows = vec![
        row(&[("k", DataValue::Integer(2)), ("tag", text("first"))]),
        row(&[("k", DataValue::Integer(1)), ("tag", text("x"))]),
        row(&[("k", DataValue::Integer(2)), ("tag", text("second"))]),
    ];
    let keys = vec![OrderByItem { expr: ident("k"), ascending: false }];
    let ordered = order_rows(rows, &keys);
    assert_eq!(value(&ordered[0], "tag"), Some(text("first")));
    assert_eq!(value(&ordered[1], "tag"), Some(text("second")));
    assert_eq!(value(&ordered[2], "tag"), Some(text("x")));
    let done = finish_windowed(ordered, &None, Some(1));
    assert_eq!(done.rows.unwrap().len(), 1);
}

#[test]
fn values_compare_like_sql_values() {
    assert_eq!(compare_values(&text("apple"), &text("banana")), ValueOrder::Less);
    assert_eq!(compare_values(&DataValue::Integer(5), &text("x")), ValueOrder::Equal);
    assert_eq!(compare_values(&real_value(-1.0), &real_value(0.5)), ValueOrder::Less);
    assert_eq!(compare_values(&real_value(f64::NAN), &real_value(1.0)), ValueOrder::Equal);
    assert!(values_equal(&real_value(0.0), &real_value(-0.0)));
    assert!(!values_equal(&real_value(f64::NAN), &real_value(f64::NAN)));
    assert_eq!(min_of_values(&real_value(f64::NAN), &real_value(2.0)), real_value(2.0));
    assert_eq!(max_of_values(&text("a"), &text("b")), text("b"));
    assert_eq!(min_of_values(&DataValue::Integer(1), &text("b")), DataValue::Integer(1));
}

#[test]
fn schemas_need_distinct_columns() {
    let schema = |names: &[&str]| TableSchema {
        columns: names
            .iter()
            .map(|n| auroradb::engine::database::ColumnDefinition {
                name: n.to_string(),
                data_type: DataType::Integer,
                nullable: true,
                default_value: None,
            })
            .collect(),
        primary_key: None,
        indexes: vec![],
    };
    assert!(matches!(validate_table_schema(&schema(&[])), Err(EngineError::NoColumns)));
    assert!(matches!(validate_table_schema(&schema(&["a", "b", "a"])), Err(EngineError::DuplicateColumn(c)) if c == "a"));
    assert!(validate_table_schema(&schema(&["a", "b"])).is_ok());
    let mut db = AuroraDB::new("/tmp/aurora".to_string());
    db.create_table("t", schema(&["id"]), &user()).unwrap();
    assert!(db.catalog().table_exists("t"));
    db.drop_table("t", &user()).unwrap();
    assert!(!db.catalog().table_exists("t"));
    assert!(db.drop_table("t", &user()).is_err());
}

#[test]
fn drop_after_create_leaves_no_table() {
    let mut db = AuroraDB::new("/tmp/aurora".to_string());
    db.execute_query(Query::CreateTable(users_table()), &user()).unwrap();
    db.execute_query(Query::DropTable(DropTableQuery { name: "users".to_string(), if_exists: false }), &user()).unwrap();
    assert!(db.catalog().list_tables().is_empty());
    let metrics = db.get_metrics();
    assert_eq!(metrics.total_queries, 0);
    assert_eq!(metrics.average_query_time_micros, 0);
}

#[test]
fn engine_errors_carry_codes_and_messages() {
    let e = EngineError::TableMissing("users".to_string());
    assert_eq!(e.code(), ErrorCode::StorageCorruption);
    assert_eq!(e.message(), "Table 'users' does not exist");
    let e = EngineError::ColumnCountMismatch { columns: 2, values: 3 };
    assert_eq!(e.message(), "Column count (2) doesn't match value count (3)");
    assert_eq!(e.code(), ErrorCode::ValidationConstraintViolation);
    assert_eq!(EngineError::MissingArgument(AggregateFunction::Avg).message(), "AVG requires an argument");
    let a = EngineError::TypeMismatch.to_aurora_error();
    assert_eq!(a.code, ErrorCode::ValidationTypeMismatch);
    assert_eq!(a.message, "Data type mismatch");
}

#[test]
fn only_plain_selects_are_cached() {
    assert!(should_cache_query("  select * from users "));
    assert!(!should_cache_query("SELECT * FROM users WHERE id = ?"));
    assert!(!should_cache_query("INSERT INTO users VALUES (1)"));
    assert!(!should_cache_query(&format!("SELECT {}", "x".repeat(1000))));
}

#[test]
fn projection_keeps_named_columns() {
    let r = row(&[("a", DataValue::Integer(1)), ("b", DataValue::Integer(2))]);
    let p = project_row(&r, &vec![item(ident("b"))]);
    assert_eq!(p.len(), 1);
    assert_eq!(value(&p, "b"), Some(DataValue::Integer(2)));
}

#[test]
fn test_aurora_db_initialization() {
    let db = AuroraDB::new("/tmp/aurora".to_string());
    let metrics = db.get_metrics();
    assert_eq!(metrics.total_queries, 0);
    assert!(true);
}

#[test]
fn lag_lead_and_ranks_follow_the_window_order() {
    let rows = vec![
        row(&[("x", DataValue::Integer(3))]),
        row(&[("x", DataValue::Integer(1))]),
        row(&[("x", DataValue::Integer(2))]),
        row(&[("x", DataValue::Integer(1))]),
    ];
    let window = |name: &str, args: Vec<Expression>| WindowFunction {
        function: FunctionCall { name: name.to_string(), arguments: args },
        partition_by: vec![],
        order_by: vec![OrderByItem { expr: ident("x"), ascending: true }],
        frame_clause: None,
    };
    let x = || vec![Expression::Column("x".to_string())];
    // order: x = 1 (row 1), 1 (row 3), 2 (row 2), 3 (row 0)
    let lag = compute_window_function(&window("LAG", x()), &rows, 0).unwrap();
    assert!(matches!(lag, AggregateValue::Value(DataValue::Integer(2))));
    let lag_first = compute_window_function(&window("LAG", x()), &rows, 1).unwrap();
    assert!(matches!(lag_first, AggregateValue::Value(DataValue::Null)));
    let lead = compute_window_function(&window("LEAD", x()), &rows, 2).unwrap();
    assert!(matches!(lead, AggregateValue::Value(DataValue::Integer(3))));
    let rank_tied = compute_window_function(&window("RANK", vec![]), &rows, 3).unwrap();
    assert!(matches!(rank_tied, AggregateValue::Value(DataValue::Integer(1))));
    let rank_two = compute_window_function(&window("RANK", vec![]), &rows, 2).unwrap();
    assert!(matches!(rank_two, AggregateValue::Value(DataValue::Integer(3))));
    let dense_two = compute_window_function(&window("DENSE_RANK", vec![]), &rows, 2).unwrap();
    assert!(matches!(dense_two, AggregateValue::Value(DataValue::Integer(2))));
    let dense_three = compute_window_function(&window("DENSE_RANK", vec![]), &rows, 0).unwrap();
    assert!(matches!(dense_three, AggregateValue::Value(DataValue::Integer(3))));
}
