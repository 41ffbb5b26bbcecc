use sqlpage::app_config::{
    default_database_connection_retries, default_https_acme_directory_url, default_max_file_size,
    DevOrProd,
};
use sqlpage::database::{
    clone_anyhow_err, connection_error, max_connections, parse_single_sql_result, push_decimal,
    row_to_varvalue, vars_and_name, Action, DatabaseKind, DbItem, Event, ParsedStatement, QueryResult, QueryStream, RequestInfo,
    StmtParam, StmtWithParams, VariableMap,
};
use sqlpage::error::{Error, ErrorKind};
use sqlpage::http::SingleOrVec;
use sqlpage::json::Json;
use sqlpage::template_helpers::{delay, flush_delayed};

fn object(entries: Vec<(&str, Json)>) -> Json {
    Json::Object(
        entries
            .into_iter()
            .map(|(k, v)| (k.to_string(), v))
            .collect(),
    )
}

fn request() -> RequestInfo {
    RequestInfo {
        get_variables: VariableMap::new(),
        post_variables: VariableMap::new(),
    }
}

fn statement(query: &str) -> StmtWithParams {
    StmtWithParams {
        query: query.to_string(),
        params: vec![StmtParam::Get("id".to_string())],
    }
}

fn single(text: &str) -> SingleOrVec {
    SingleOrVec::Single(text.to_string())
}

fn yielded(action: Action<'_>) -> (usize, DbItem) {
    match action {
        Action::Yield { position, item } => (position, item),
        _ => panic!("nothing was yielded"),
    }
}

#[test]
fn variables_are_set_read_and_cleared() {
    let mut vars = VariableMap::new();
    assert_eq!(vars.get("a"), None);
    vars.insert("a".to_string(), single("1"));
    vars.insert("b".to_string(), single("2"));
    vars.insert("a".to_string(), single("3"));
    assert_eq!(vars.get("a"), Some(&single("3")));
    assert_eq!(vars.get("b"), Some(&single("2")));
    vars.remove("a");
    assert_eq!(vars.get("a"), None);
    assert_eq!(vars.get("b"), Some(&single("2")));
    vars.remove("missing");
    assert_eq!(vars.get("b"), Some(&single("2")));
}

#[test]
fn get_and_post_variables_can_be_set() {
    let mut request = request();
    request.get_variables.insert("g".to_string(), single("get"));
    request.post_variables.insert("p".to_string(), single("post"));
    {
        let (vars, name) = vars_and_name(&mut request, &StmtParam::Get("x".to_string())).unwrap();
        assert_eq!(name, "x");
        assert_eq!(vars.get("g"), Some(&single("get")));
        vars.insert(name, single("1"));
    }
    {
        let (vars, name) =
            vars_and_name(&mut request, &StmtParam::GetOrPost("y".to_string())).unwrap();
        assert_eq!(name, "y");
        vars.insert(name, single("2"));
    }
    {
        let (vars, name) = vars_and_name(&mut request, &StmtParam::Post("z".to_string())).unwrap();
        assert_eq!(name, "z");
        assert_eq!(vars.get("p"), Some(&single("post")));
        vars.insert(name, single("3"));
    }
    assert_eq!(request.get_variables.get("x"), Some(&single("1")));
    assert_eq!(request.get_variables.get("y"), Some(&single("2")));
    assert_eq!(request.get_variables.get("z"), None);
    assert_eq!(request.post_variables.get("z"), Some(&single("3")));
}

#[test]
fn nothing_else_can_be_set() {
    let mut request = request();
    for variable in [
        StmtParam::Cookie("c".to_string()),
        StmtParam::Header("h".to_string()),
        StmtParam::Literal("l".to_string()),
    ] {
        let e = vars_and_name(&mut request, &variable).err().unwrap();
        assert_eq!(e.kind, ErrorKind::InvalidVariableTarget);
        assert_eq!(
            e.message,
            format!("Only GET and POST variables can be set, not {:?}", variable)
        );
    }
    let e = vars_and_name(&mut request, &StmtParam::Cookie("session".to_string()))
        .err()
        .unwrap();
    assert_eq!(
        e.message,
        "Only GET and POST variables can be set, not Cookie(\"session\")"
    );
}

#[test]
fn a_cloned_error_keeps_its_chain() {
    let e = Error::with_status(403, "syntax error").context("in statement 2");
    let copy = clone_anyhow_err(&e);
    assert_eq!(copy.message, "in statement 2");
    assert_eq!(
        copy.causes,
        vec![
            "syntax error",
            "SQLPage could not parse and prepare this SQL statement"
        ]
    );
    assert_eq!(copy.status, None);
    assert_eq!(copy.kind, ErrorKind::Statement);
    let bare = clone_anyhow_err(&Error::new(ErrorKind::Render, "alone"));
    assert_eq!(bare.message, "alone");
    assert_eq!(
        bare.causes,
        vec!["SQLPage could not parse and prepare this SQL statement"]
    );
}

#[test]
fn a_driver_result_becomes_an_item() {
    let row = object(vec![("a", Json::from_u64(1))]);
    assert_eq!(
        parse_single_sql_result("select 1", Ok(QueryResult::Row(row.clone()))),
        DbItem::Row(row)
    );
    assert_eq!(
        parse_single_sql_result("select 1", Ok(QueryResult::Done)),
        DbItem::FinishedQuery
    );
    let failed = Error::new(ErrorKind::Statement, "no such table").context("driver");
    match parse_single_sql_result("select * from t", Err(failed)) {
        DbItem::Error(e) => {
            assert_eq!(e.message, "Failed to execute SQL statement");
            assert_eq!(e.causes, vec!["select * from t", "driver", "no such table"]);
            assert_eq!(e.kind, ErrorKind::Statement);
        }
        other => panic!("not an error: {:?}", other),
    }
}

#[test]
fn the_first_column_becomes_the_value_of_a_variable() {
    assert_eq!(row_to_varvalue(None), single(""));
    assert_eq!(row_to_varvalue(Some(Json::from_str("text"))), single("text"));
    assert_eq!(row_to_varvalue(Some(Json::from_u64(42))), single("42"));
    assert_eq!(row_to_varvalue(Some(Json::Null)), single("null"));
    assert_eq!(row_to_varvalue(Some(Json::Bool(true))), single("true"));
    assert_eq!(
        row_to_varvalue(Some(object(vec![("a", Json::from_u64(1))]))),
        single("{\"a\":1}")
    );
    assert_eq!(
        row_to_varvalue(Some(Json::Array(vec![
            Json::from_str("a"),
            Json::from_u64(2),
            Json::Null,
            Json::Array(vec![Json::from_str("x")]),
        ]))),
        SingleOrVec::Vec(vec![
            "a".to_string(),
            "2".to_string(),
            "null".to_string(),
            "[\"x\"]".to_string()
        ])
    );
    assert_eq!(row_to_varvalue(Some(Json::Array(vec![]))), SingleOrVec::Vec(vec![]));
}

#[test]
fn numbers_are_written_in_decimal() {
    for (n, expected) in [
        (0u32, "0"),
        (7, "7"),
        (10, "10"),
        (42, "42"),
        (100, "100"),
        (9090, "9090"),
        (4294967295, "4294967295"),
    ] {
        let mut text = String::from("n=");
        push_decimal(&mut text, n);
        assert_eq!(text, format!("n={}", expected));
    }
}

#[test]
fn a_busy_pool_tells_its_size_and_its_limit() {
    let mut timeout = Error::new(ErrorKind::Statement, "pool timed out");
    timeout.pool_timed_out = true;
    let e = connection_error(timeout, 5, 16);
    assert_eq!(e.kind, ErrorKind::ConnectionUnavailable);
    assert_eq!(
        e.message,
        "Unable to acquire a database connection to execute the SQL file. All of the 5 connections of a pool of at most 16 are busy."
    );
    assert_eq!(e.causes, vec!["pool timed out"]);
    assert!(e.pool_timed_out);
}

#[test]
fn statements_run_in_their_order() {
    let static_row = object(vec![("component", Json::from_str("text"))]);
    let statements = vec![
        ParsedStatement::StaticSimpleSelect(static_row.clone()),
        ParsedStatement::Error(Error::new(ErrorKind::Statement, "syntax error")),
        ParsedStatement::StmtWithParams(statement("select 1")),
        ParsedStatement::StmtWithParams(statement("select 2")),
        ParsedStatement::StaticSimpleSelect(Json::Null),
    ];
    let mut request = request();
    let mut stream = QueryStream::new(&statements);
    let mut positions = Vec::new();
    let mut items = Vec::new();

    let (position, item) = yielded(stream.step(&mut request, Event::Resume));
    positions.push(position);
    items.push(item);
    let (position, item) = yielded(stream.step(&mut request, Event::Resume));
    positions.push(position);
    items.push(item);
    match stream.step(&mut request, Event::Resume) {
        Action::Execute { statement, acquire_connection } => {
            assert_eq!(statement.query, "select 1");
            assert!(acquire_connection);
        }
        _ => panic!("the statement is not executed"),
    }
    for n in 1..=3 {
        let row = object(vec![("n", Json::from_u64(n))]);
        let (position, item) = yielded(stream.step(&mut request, Event::Row(row)));
        positions.push(position);
        items.push(item);
        assert!(matches!(stream.step(&mut request, Event::Resume), Action::FetchNext));
    }
    let (position, item) = yielded(stream.step(&mut request, Event::QueryDone));
    positions.push(position);
    items.push(item);
    assert!(matches!(stream.step(&mut request, Event::Resume), Action::FetchNext));
    match stream.step(&mut request, Event::EndOfResults) {
        Action::Execute { statement, acquire_connection } => {
            assert_eq!(statement.query, "select 2");
            assert!(!acquire_connection);
        }
        _ => panic!("the statement is not executed"),
    }
    let (position, item) = yielded(stream.step(&mut request, Event::EndOfResults));
    positions.push(position);
    items.push(item);
    assert!(matches!(stream.step(&mut request, Event::Resume), Action::Finished));
    assert!(matches!(stream.step(&mut request, Event::Resume), Action::Finished));
    assert!(matches!(stream.step(&mut request, Event::QueryDone), Action::Finished));

    assert_eq!(positions, vec![0, 1, 2, 2, 2, 2, 4]);
    assert_eq!(items[0], DbItem::Row(static_row));
    match &items[1] {
        DbItem::Error(e) => {
            assert_eq!(e.message, "syntax error");
            assert_eq!(
                e.causes,
                vec!["SQLPage could not parse and prepare this SQL statement"]
            );
        }
        other => panic!("not an error: {:?}", other),
    }
    for (i, n) in [(2usize, 1u64), (3, 2), (4, 3)] {
        assert_eq!(items[i], DbItem::Row(object(vec![("n", Json::from_u64(n))])));
    }
    assert_eq!(items[5], DbItem::FinishedQuery);
    assert_eq!(items[6], DbItem::Row(Json::Null));
}

#[test]
fn a_failed_statement_does_not_stop_the_page() {
    let statements = vec![
        ParsedStatement::StmtWithParams(statement("select * from missing")),
        ParsedStatement::StmtWithParams(statement("select 2")),
    ];
    let mut request = request();
    let mut stream = QueryStream::new(&statements);
    assert!(matches!(
        stream.step(&mut request, Event::Resume),
        Action::Execute { acquire_connection: true, .. }
    ));
    let (position, item) = yielded(stream.step(
        &mut request,
        Event::DriverError(Error::new(ErrorKind::Statement, "no such table")),
    ));
    assert_eq!(position, 0);
    match item {
        DbItem::Error(e) => {
            assert_eq!(e.message, "Failed to execute SQL statement");
            assert_eq!(e.causes, vec!["select * from missing", "no such table"]);
        }
        other => panic!("not an error: {:?}", other),
    }
    match stream.step(&mut request, Event::Resume) {
        Action::Execute { statement, acquire_connection } => {
            assert_eq!(statement.query, "select 2");
            assert!(!acquire_connection);
        }
        _ => panic!("the next statement is not executed"),
    }
}

#[test]
fn a_failure_to_connect_stops_the_page() {
    let statements = vec![
        ParsedStatement::StmtWithParams(statement("select 1")),
        ParsedStatement::StaticSimpleSelect(Json::Null),
    ];
    let mut request = request();
    let mut stream = QueryStream::new(&statements);
    stream.step(&mut request, Event::Resume);
    let (position, item) = yielded(stream.step(
        &mut request,
        Event::ConnectionFailed {
            error: Error::new(ErrorKind::Statement, "pool timed out"),
            pool_size: 10,
            pool_max: 10,
        },
    ));
    assert_eq!(position, 0);
    match item {
        DbItem::Error(e) => {
            assert_eq!(e.kind, ErrorKind::ConnectionUnavailable);
            assert!(e.message.contains("All of the 10 connections of a pool of at most 10"));
            assert_eq!(e.causes, vec!["pool timed out"]);
        }
        other => panic!("not an error: {:?}", other),
    }
    assert!(matches!(stream.step(&mut request, Event::Resume), Action::Finished));
}

#[test]
fn a_failure_to_bind_stops_the_page() {
    let statements = vec![
        ParsedStatement::StmtWithParams(statement("select 1")),
        ParsedStatement::StaticSimpleSelect(Json::Null),
    ];
    let mut request = request();
    let mut stream = QueryStream::new(&statements);
    stream.step(&mut request, Event::Resume);
    let failure = Error::with_status(401, "no password");
    let (_, item) = yielded(stream.step(&mut request, Event::Failed(failure.duplicate())));
    assert_eq!(item, DbItem::Error(failure));
    assert!(matches!(stream.step(&mut request, Event::Resume), Action::Finished));
}

#[test]
fn a_statement_sets_and_clears_a_variable() {
    let statements = vec![
        ParsedStatement::SetVariable {
            variable: StmtParam::Get("x".to_string()),
            value: statement("select 'v'"),
        },
        ParsedStatement::SetVariable {
            variable: StmtParam::Post("y".to_string()),
            value: statement("select 1, 2"),
        },
        ParsedStatement::SetVariable {
            variable: StmtParam::Get("gone".to_string()),
            value: statement("select 1 where false"),
        },
    ];
    let mut request = request();
    request.get_variables.insert("gone".to_string(), single("here"));
    let mut stream = QueryStream::new(&statements);
    match stream.step(&mut request, Event::Resume) {
        Action::SetVariable { value, acquire_connection } => {
            assert_eq!(value.query, "select 'v'");
            assert!(acquire_connection);
        }
        _ => panic!("the variable is not computed"),
    }
    match stream.step(&mut request, Event::Resume) {
        Action::SetVariable { value, .. } => assert_eq!(value.query, "select 'v'"),
        _ => panic!("the action is not repeated"),
    }
    match stream.step(&mut request, Event::Variable(Some(Json::from_str("v")))) {
        Action::SetVariable { value, acquire_connection } => {
            assert_eq!(value.query, "select 1, 2");
            assert!(!acquire_connection);
        }
        _ => panic!("the next variable is not computed"),
    }
    assert_eq!(request.get_variables.get("x"), Some(&single("v")));
    assert!(matches!(
        stream.step(&mut request, Event::Variable(Some(Json::from_u64(1)))),
        Action::SetVariable { .. }
    ));
    assert_eq!(request.post_variables.get("y"), Some(&single("1")));
    assert_eq!(request.get_variables.get("y"), None);
    assert!(matches!(stream.step(&mut request, Event::NoRow), Action::Finished));
    assert_eq!(request.get_variables.get("gone"), None);
    assert_eq!(request.get_variables.get("x"), Some(&single("v")));
}

#[test]
fn a_variable_that_cannot_be_set_stops_the_page() {
    let statements = vec![
        ParsedStatement::SetVariable {
            variable: StmtParam::Cookie("session".to_string()),
            value: statement("select 1"),
        },
        ParsedStatement::StaticSimpleSelect(Json::Null),
    ];
    let mut request = request();
    let mut stream = QueryStream::new(&statements);
    stream.step(&mut request, Event::Resume);
    let (position, item) = yielded(stream.step(&mut request, Event::Variable(None)));
    assert_eq!(position, 0);
    match item {
        DbItem::Error(e) => {
            assert_eq!(e.kind, ErrorKind::InvalidVariableTarget);
            assert_eq!(
                e.message,
                "Only GET and POST variables can be set, not Cookie(\"session\")"
            );
        }
        other => panic!("not an error: {:?}", other),
    }
    assert!(matches!(stream.step(&mut request, Event::Resume), Action::Finished));
}

#[test]
fn no_statements_finish_at_once() {
    let statements = Vec::new();
    let mut request = request();
    let mut stream = QueryStream::new(&statements);
    assert!(matches!(stream.step(&mut request, Event::Resume), Action::Finished));
}

#[test]
fn deferred_text_comes_out_last_in_first_out() {
    let mut scopes: Vec<Option<String>> = vec![None];
    delay(&mut scopes, " 1 </b>".to_string());
    delay(&mut scopes, " 2 </b>".to_string());
    assert_eq!(scopes, vec![Some(" 2 </b> 1 </b>".to_string())]);
    assert_eq!(flush_delayed(&mut scopes), " 2 </b> 1 </b>");
    assert_eq!(scopes, vec![None]);
    assert_eq!(flush_delayed(&mut scopes), "");
}

#[test]
fn deferred_text_goes_to_the_outermost_scope() {
    let mut scopes: Vec<Option<String>> = vec![None, Some("mid".to_string()), Some("out".to_string())];
    delay(&mut scopes, "new".to_string());
    assert_eq!(
        scopes,
        vec![None, Some("mid".to_string()), Some("newout".to_string())]
    );
    let mut none: Vec<Option<String>> = Vec::new();
    delay(&mut none, "lost".to_string());
    assert!(none.is_empty());
}

#[test]
fn a_flush_writes_the_innermost_scope_first() {
    let mut scopes: Vec<Option<String>> = vec![
        Some("inner".to_string()),
        None,
        Some(String::new()),
        Some("outer".to_string()),
    ];
    assert_eq!(flush_delayed(&mut scopes), "innerouter");
    assert_eq!(scopes, vec![None, None, Some(String::new()), None]);
}

#[test]
fn the_defaults_of_the_configuration() {
    assert_eq!(default_database_connection_retries(), 6);
    assert_eq!(default_max_file_size(), 5 * 1024 * 1024);
    assert_eq!(
        default_https_acme_directory_url(),
        "https://acme-v02.api.letsencrypt.org/directory"
    );
    assert!(DevOrProd::Production.is_prod());
    assert!(!DevOrProd::Development.is_prod());
    assert_eq!(DevOrProd::default(), DevOrProd::Development);
}

#[test]
fn the_pool_is_as_large_as_configured_or_as_the_database_takes() {
    assert_eq!(max_connections(Some(3), DatabaseKind::Postgres, false), 3);
    assert_eq!(max_connections(Some(0), DatabaseKind::Sqlite, true), 0);
    assert_eq!(max_connections(None, DatabaseKind::Postgres, false), 50);
    assert_eq!(max_connections(None, DatabaseKind::MySql, false), 75);
    assert_eq!(max_connections(None, DatabaseKind::Mssql, true), 100);
    assert_eq!(max_connections(None, DatabaseKind::Sqlite, false), 16);
    assert_eq!(max_connections(None, DatabaseKind::Sqlite, true), 1);
}

#[test]
fn a_serde_value_becomes_the_same_json() {
    let value: serde_json::Value =
        serde_json::from_str("{\"b\": [1, \"two\", null], \"a\": {\"x\": true}}").unwrap();
    let json = Json::from_value(value.clone());
    assert_eq!(json.to_text(), value.to_string());
    assert_eq!(Some(json), Json::parse(&value.to_string()));
}
