use handlebars::Handlebars;
use sqlpage::database::DbItem;
use sqlpage::error::{Error, ErrorKind};
use sqlpage::http::{
    build_response_header_and_stream, error_response, header_step, path_to_sql_file,
    redirect_missing_trailing_slash, send_anyhow_error, stream_response, stream_step, take_chunk, ResponseHead,
    ResponseWithWriter, SingleOrVec, MAX_PENDING_MESSAGES,
};
use sqlpage::json::Json;
use sqlpage::render::{HeaderContext, PageContext, RenderContext};
use sqlpage::templates::AllTemplates;

fn object(entries: Vec<(&str, Json)>) -> Json {
    Json::Object(
        entries
            .into_iter()
            .map(|(k, v)| (k.to_string(), v))
            .collect(),
    )
}

fn text(bytes: &[u8]) -> String {
    String::from_utf8_lossy(bytes).into_owned()
}

fn header_row(name: &str, value: &str) -> DbItem {
    DbItem::Row(object(vec![
        ("component", Json::from_str("http_header")),
        (name, Json::from_str(value)),
    ]))
}

fn row(key: &str, value: &str) -> DbItem {
    DbItem::Row(object(vec![(key, Json::from_str(value))]))
}

fn headers(pairs: Vec<(&str, &str)>) -> Vec<(String, String)> {
    pairs
        .into_iter()
        .map(|(k, v)| (k.to_string(), v.to_string()))
        .collect()
}

fn registry() -> AllTemplates {
    let mut templates = AllTemplates::init(Handlebars::new());
    templates
        .add_template("shell", "<html>{{#each_row}}{{/each_row}}</html>")
        .unwrap();
    templates
        .add_template("default", "[{{#each_row}}({{x}}){{/each_row}}]")
        .unwrap();
    templates
        .add_template("text", "<p>{{#each_row}}{{contents}};{{/each_row}}</p>")
        .unwrap();
    templates
        .add_template(
            "error",
            "{{#each_row}}<error q={{query_number}}>{{description}}</error>{{/each_row}}",
        )
        .unwrap();
    templates
}

#[test]
fn a_page_of_headers_only_has_no_body_to_stream() {
    let templates = registry();
    let items = vec![
        header_row("X-One", "1"),
        DbItem::FinishedQuery,
        header_row("X-Two", "2"),
        DbItem::FinishedQuery,
    ];
    match build_response_header_and_stream(&templates, items).unwrap() {
        ResponseWithWriter::FinishedResponse { http_response } => {
            assert_eq!(http_response.status, 200);
            assert_eq!(
                http_response.headers,
                headers(vec![
                    ("Content-Type", "text/html; charset=utf-8"),
                    ("X-One", "1"),
                    ("X-Two", "2"),
                ])
            );
        }
        ResponseWithWriter::RenderStream { .. } => panic!("a body is to be streamed"),
    }
}

#[test]
fn no_items_give_an_empty_response() {
    let templates = registry();
    match build_response_header_and_stream(&templates, Vec::new()).unwrap() {
        ResponseWithWriter::FinishedResponse { http_response } => {
            assert_eq!(http_response, ResponseHead::new());
        }
        ResponseWithWriter::RenderStream { .. } => panic!("a body is to be streamed"),
    }
}

#[test]
fn the_first_body_record_starts_the_stream() {
    let templates = registry();
    let items = vec![
        header_row("X-One", "1"),
        DbItem::FinishedQuery,
        DbItem::Row(object(vec![("component", Json::from_str("text"))])),
        row("contents", "a"),
        DbItem::FinishedQuery,
        row("contents", "b"),
    ];
    match build_response_header_and_stream(&templates, items).unwrap() {
        ResponseWithWriter::FinishedResponse { .. } => panic!("no body"),
        ResponseWithWriter::RenderStream {
            http_response,
            renderer,
            database_entries_stream,
        } => {
            assert_eq!(
                http_response.headers,
                headers(vec![("Content-Type", "text/html; charset=utf-8"), ("X-One", "1")])
            );
            assert_eq!(text(&renderer.writer), "<html><p>");
            assert_eq!(
                database_entries_stream,
                vec![row("contents", "a"), DbItem::FinishedQuery, row("contents", "b")]
            );
            let (body, fatal) = stream_response(database_entries_stream, renderer);
            assert_eq!(fatal, None);
            assert_eq!(text(&body), "<html><p>a;b;</p></html>");
        }
    }
}

#[test]
fn an_error_with_a_status_ends_the_page() {
    let templates = registry();
    let items = vec![
        header_row("X-One", "1"),
        DbItem::Error(Error::with_status(403, "forbidden")),
        row("contents", "never"),
    ];
    let e = build_response_header_and_stream(&templates, items).err().unwrap();
    assert_eq!(e.status, Some(403));
    assert_eq!(e.message, "forbidden");
}

#[test]
fn an_error_without_status_is_shown_in_the_page() {
    let templates = registry();
    let items = vec![
        DbItem::Error(Error::new(ErrorKind::Statement, "boom")),
        DbItem::FinishedQuery,
        row("x", "1"),
    ];
    match build_response_header_and_stream(&templates, items).unwrap() {
        ResponseWithWriter::FinishedResponse { .. } => panic!("no body"),
        ResponseWithWriter::RenderStream {
            renderer,
            database_entries_stream,
            ..
        } => {
            assert_eq!(text(&renderer.writer), "<html>[]<error q=1>boom</error>");
            assert_eq!(database_entries_stream.len(), 2);
        }
    }
}

#[test]
fn a_bad_header_fails_the_page() {
    let templates = registry();
    let items = vec![DbItem::Row(object(vec![
        ("component", Json::from_str("http_header")),
        ("X-One", Json::Bool(true)),
    ]))];
    let e = build_response_header_and_stream(&templates, items).err().unwrap();
    assert_eq!(e.kind, ErrorKind::InvalidHeader);
}

#[test]
fn header_step_leaves_the_headers_open_at_the_end_of_a_statement() {
    let templates = registry();
    let head = HeaderContext::new(&templates, Vec::new());
    match header_step(head, DbItem::FinishedQuery).unwrap() {
        PageContext::Header(head) => assert_eq!(head.close(), ResponseHead::new()),
        PageContext::Body { .. } => panic!("the body was opened"),
    }
}

#[test]
fn a_failed_row_is_shown_and_the_page_goes_on() {
    let templates = registry();
    let mut page = RenderContext::new(&templates, Vec::new(), Json::Null).unwrap();
    page.writer.clear();
    stream_step(&mut page, DbItem::FinishedQuery).unwrap();
    stream_step(
        &mut page,
        DbItem::Row(object(vec![("component", Json::from_str("chart"))])),
    )
    .unwrap();
    assert_eq!(
        text(&page.writer),
        "]<error q=2>The component &#x27;chart&#x27; was not found.</error>"
    );
    page.writer.clear();
    stream_step(
        &mut page,
        DbItem::Error(Error::new(ErrorKind::Statement, "boom")),
    )
    .unwrap();
    stream_step(
        &mut page,
        DbItem::Row(object(vec![("component", Json::from_str("text"))])),
    )
    .unwrap();
    stream_step(&mut page, row("contents", "still here")).unwrap();
    assert_eq!(
        text(&page.writer),
        "<error q=2>boom</error><p>still here;"
    );
}

#[test]
fn the_stream_goes_on_after_an_error_and_then_closes() {
    let templates = registry();
    let page = RenderContext::new(&templates, Vec::new(), Json::Null).unwrap();
    let items = vec![
        DbItem::Error(Error::new(ErrorKind::Statement, "boom")),
        DbItem::FinishedQuery,
        DbItem::Row(object(vec![("component", Json::from_str("text"))])),
        row("contents", "r"),
    ];
    let (body, fatal) = stream_response(items, page);
    assert_eq!(fatal, None);
    assert_eq!(
        text(&body),
        "<html>[]<error q=1>boom</error><p>r;</p></html>"
    );
}

#[test]
fn an_error_that_cannot_be_shown_stops_the_page() {
    let mut templates = AllTemplates::init(Handlebars::new());
    templates.add_template("shell", "<html>{{#each_row}}{{/each_row}}</html>").unwrap();
    templates.add_template("default", "[{{#each_row}}{{x}}{{/each_row}}]").unwrap();
    let page = RenderContext::new(&templates, Vec::new(), Json::Null).unwrap();
    let items = vec![
        row("x", "1"),
        DbItem::Error(Error::new(ErrorKind::Statement, "boom")),
        row("x", "2"),
    ];
    let (body, fatal) = stream_response(items, page);
    let fatal = fatal.unwrap();
    assert_eq!(fatal.kind, ErrorKind::ComponentNotFound);
    assert_eq!(fatal.message, "The component 'error' was not found.");
    assert_eq!(text(&body), "<html>[1]</html>");
}

#[test]
fn take_chunk_empties_the_writer() {
    let mut writer = b"abc".to_vec();
    assert_eq!(take_chunk(&mut writer), Some(b"abc".to_vec()));
    assert!(writer.is_empty());
    assert_eq!(take_chunk(&mut writer), None);
    assert_eq!(MAX_PENDING_MESSAGES, 128);
}

#[test]
fn an_error_becomes_a_plain_text_response() {
    let e = Error::new(ErrorKind::Statement, "no such table").context("query failed");
    let response = error_response(&e, 7);
    assert_eq!(response.status, 500);
    assert_eq!(response.headers, headers(vec![("Content-Type", "text/plain")]));
    assert_eq!(response.retry_after, None);
    assert_eq!(
        response.body,
        "Sorry, but we were not able to process your request. \n\nError:\n\n query failed\ncaused by: no such table"
    );
}

#[test]
fn an_error_with_a_status_gives_that_status() {
    let response = error_response(&Error::with_status(404, "not here"), 1);
    assert_eq!(response.status, 404);
    assert_eq!(response.headers, headers(vec![("Content-Type", "text/plain")]));
    assert!(response.body.ends_with("not here"));
}

#[test]
fn an_unauthorized_client_is_asked_to_log_in() {
    let response = error_response(&Error::with_status(401, "who are you").context("outer"), 1);
    assert_eq!(response.status, 401);
    assert_eq!(
        response.headers,
        headers(vec![
            ("Content-Type", "text/plain"),
            (
                "WWW-Authenticate",
                "Basic realm=\"Authentication required\", charset=\"UTF-8\""
            ),
        ])
    );
    assert_eq!(
        response.body,
        "Sorry, but you are not authorized to access this page."
    );
    assert_eq!(response.retry_after, None);
}

#[test]
fn an_overrun_pool_asks_the_client_to_come_back() {
    let mut e = Error::new(ErrorKind::ConnectionUnavailable, "pool timed out");
    e.pool_timed_out = true;
    let response = error_response(&e, 9);
    assert_eq!(response.status, 503);
    assert_eq!(response.retry_after, Some(9));
    let mut seen = std::collections::BTreeSet::new();
    for _ in 0..400 {
        let response = send_anyhow_error(&e);
        assert_eq!(response.status, 503);
        let seconds = response.retry_after.unwrap();
        assert!((1..=15).contains(&seconds));
        seen.insert(seconds);
    }
    assert!(seen.len() > 1);
    assert_eq!(send_anyhow_error(&Error::new(ErrorKind::Render, "x")).retry_after, None);
}

#[test]
fn merging_two_single_values_keeps_the_new_one() {
    let mut value = SingleOrVec::Single("old".to_string());
    value.merge(SingleOrVec::Single("new".to_string()));
    assert_eq!(value, SingleOrVec::Single("new".to_string()));
}

#[test]
fn merging_with_a_list_gives_a_list() {
    let list = |items: Vec<&str>| SingleOrVec::Vec(items.into_iter().map(String::from).collect());
    let mut value = SingleOrVec::Single("a".to_string());
    value.merge(list(vec!["b", "c"]));
    assert_eq!(value, list(vec!["a", "b", "c"]));
    value.merge(SingleOrVec::Single("d".to_string()));
    assert_eq!(value, list(vec!["a", "b", "c", "d"]));
    value.merge(list(vec![]));
    assert_eq!(value, list(vec!["a", "b", "c", "d"]));
    let mut empty = list(vec![]);
    empty.merge(list(vec!["x"]));
    assert_eq!(empty, list(vec!["x"]));
}

#[test]
fn take_vec_moves_the_strings_out() {
    let mut single = SingleOrVec::Single("a".to_string());
    assert_eq!(single.take_vec(), vec!["a".to_string()]);
    assert_eq!(single, SingleOrVec::Single(String::new()));
    let mut list = SingleOrVec::Vec(vec!["a".to_string(), "b".to_string()]);
    assert_eq!(list.take_vec(), vec!["a".to_string(), "b".to_string()]);
    assert_eq!(list, SingleOrVec::Vec(vec![]));
}

#[test]
fn as_json_str_prints_a_list_as_json() {
    assert_eq!(SingleOrVec::Single("a b".to_string()).as_json_str(), "a b");
    let list = SingleOrVec::Vec(vec!["a".to_string(), "b\"c".to_string()]);
    assert_eq!(list.as_json_str(), "[\"a\",\"b\\\"c\"]");
    assert_eq!(SingleOrVec::Vec(vec![]).as_json_str(), "[]");
}

#[test]
fn a_path_resolves_to_its_sql_file() {
    assert_eq!(path_to_sql_file("/"), Some("index.sql".to_string()));
    assert_eq!(path_to_sql_file(""), Some("index.sql".to_string()));
    assert_eq!(path_to_sql_file("/users"), Some("users/index.sql".to_string()));
    assert_eq!(path_to_sql_file("/users/"), Some("users/index.sql".to_string()));
    assert_eq!(path_to_sql_file("/users/list.sql"), Some("users/list.sql".to_string()));
    assert_eq!(path_to_sql_file("list.sql"), Some("list.sql".to_string()));
    assert_eq!(path_to_sql_file("/style.css"), None);
    assert_eq!(path_to_sql_file("/a.sql/b.js"), None);
    assert_eq!(path_to_sql_file("/LIST.SQL"), None);
    assert_eq!(path_to_sql_file("//x"), Some("/x/index.sql".to_string()));
}

#[test]
fn a_response_head_lists_its_headers_in_order() {
    let mut head = ResponseHead::new();
    head.insert_header("X-A", "1");
    head.insert_header("X-A", "2");
    assert_eq!(head.status, 200);
    assert_eq!(
        head.headers,
        headers(vec![
            ("Content-Type", "text/html; charset=utf-8"),
            ("X-A", "1"),
            ("X-A", "2"),
        ])
    );
}

#[test]
fn a_page_without_trailing_slash_is_sent_on() {
    assert_eq!(
        redirect_missing_trailing_slash("/users", None),
        Some("/users/".to_string())
    );
    assert_eq!(
        redirect_missing_trailing_slash("/users", Some("id=1&x=y")),
        Some("/users/?id=1&x=y".to_string())
    );
    assert_eq!(
        redirect_missing_trailing_slash("", None),
        Some("/".to_string())
    );
    assert_eq!(
        redirect_missing_trailing_slash("/a.b/c", Some("")),
        Some("/a.b/c/?".to_string())
    );
    assert_eq!(
        redirect_missing_trailing_slash("/sql", None),
        Some("/sql/".to_string())
    );
    assert_eq!(
        redirect_missing_trailing_slash("/x.sqlx", None),
        Some("/x.sqlx/".to_string())
    );
    assert_eq!(
        redirect_missing_trailing_slash("/caf\u{e9}", None),
        Some("/caf\u{e9}/".to_string())
    );
}

#[test]
fn a_page_with_trailing_slash_or_sql_file_is_served() {
    assert_eq!(redirect_missing_trailing_slash("/", None), None);
    assert_eq!(redirect_missing_trailing_slash("/users/", Some("id=1")), None);
    assert_eq!(redirect_missing_trailing_slash("/users/list.sql", None), None);
    assert_eq!(redirect_missing_trailing_slash("/users/LIST.SQL", None), None);
    assert_eq!(redirect_missing_trailing_slash("/users/list.Sql", Some("a=b")), None);
    assert_eq!(redirect_missing_trailing_slash(".sql", None), None);
}
