use handlebars::{
    Context, Handlebars, Helper, HelperResult, Output, RenderContext as EngineContext,
    RenderErrorReason, Renderable, StringOutput, Template,
};
use sqlpage::error::{Error, ErrorKind};
use sqlpage::json::Json;
use sqlpage::render::{
    error_record, HeaderContext, PageContext, RenderContext, SplitTemplateRenderer,
    MAX_RECURSION_DEPTH,
};
use sqlpage::template_helpers::{delay, flush_delayed, DELAYED_CONTENTS};
use sqlpage::templates::{split_template, AllTemplates};

fn object(entries: Vec<(&str, Json)>) -> Json {
    Json::Object(
        entries
            .into_iter()
            .map(|(k, v)| (k.to_string(), v))
            .collect(),
    )
}

fn text(bytes: &[u8]) -> String {
    String::from_utf8_lossy(bytes).into_owned()
}

fn with_scopes(rc: &mut EngineContext<'_, '_>, action: &mut dyn FnMut(&mut Vec<Option<String>>)) {
    let mut blocks = Vec::new();
    while let Some(top) = rc.block_mut().map(std::mem::take) {
        rc.pop_block();
        blocks.push(top);
    }
    let before: Vec<Option<String>> = blocks
        .iter()
        .map(|block| {
            block
                .get_local_var(DELAYED_CONTENTS)
                .and_then(|value| value.as_str())
                .map(str::to_owned)
        })
        .collect();
    let mut scopes = before.clone();
    action(&mut scopes);
    for ((block, old), new) in blocks.iter_mut().zip(before).zip(scopes) {
        if old != new {
            let value = new.map_or(serde_json::Value::Null, serde_json::Value::String);
            block.set_local_var(DELAYED_CONTENTS, value);
        }
    }
    while let Some(block) = blocks.pop() {
        rc.push_block(block);
    }
}

fn delay_helper<'reg, 'rc>(
    h: &Helper<'rc>,
    r: &'reg Handlebars<'reg>,
    ctx: &'rc Context,
    rc: &mut EngineContext<'reg, 'rc>,
    _out: &mut dyn Output,
) -> HelperResult {
    let inner = h
        .template()
        .ok_or(RenderErrorReason::BlockContentRequired)?;
    let mut str_out = StringOutput::new();
    inner.render(r, ctx, rc, &mut str_out)?;
    let mut rendered = Some(str_out.into_string()?);
    with_scopes(rc, &mut |scopes| {
        if let Some(rendered) = rendered.take() {
            delay(scopes, rendered)
        }
    });
    Ok(())
}

fn flush_delayed_helper<'reg, 'rc>(
    _h: &Helper<'rc>,
    _r: &'reg Handlebars<'reg>,
    _ctx: &'rc Context,
    rc: &mut EngineContext<'reg, 'rc>,
    writer: &mut dyn Output,
) -> HelperResult {
    let mut written = String::new();
    with_scopes(rc, &mut |scopes| written = flush_delayed(scopes));
    writer.write(&written)?;
    Ok(())
}

fn engine() -> Handlebars<'static> {
    let mut handlebars = Handlebars::new();
    handlebars.register_helper("delay", Box::new(delay_helper));
    handlebars.register_helper("flush_delayed", Box::new(flush_delayed_helper));
    handlebars
}

fn registry() -> AllTemplates {
    let mut templates = AllTemplates::init(engine());
    templates
        .add_template("shell", "<html>{{title}}{{#each_row}}{{/each_row}}</html>")
        .unwrap();
    templates
        .add_template("default", "[default {{title}}{{#each_row}}({{x}}){{/each_row}}]")
        .unwrap();
    templates
        .add_template("text", "<p>{{title}}{{#each_row}}{{@row_index}}:{{contents}};{{/each_row}}</p>")
        .unwrap();
    templates
        .add_template(
            "error",
            "{{#each_row}}<error q={{query_number}}>{{description}}{{#each backtrace}}|{{this}}{{/each}}</error>{{/each_row}}",
        )
        .unwrap();
    templates
        .add_template("strict", "{{#each_row}}{{fail_here}}{{/each_row}}")
        .unwrap();
    templates
}

fn failing_engine() -> Handlebars<'static> {
    let mut handlebars = engine();
    handlebars.set_strict_mode(true);
    handlebars
}

#[test]
fn test_split_template_render() {
    let template = Template::compile(
        "Hello {{name}} !\
        {{#each_row}} ({{x}} : {{../name}}) {{/each_row}}\
        Goodbye {{name}}",
    )
    .unwrap();
    let split = split_template(template);
    let mut output = Vec::new();
    let handlebars = Handlebars::new();
    let mut rdr = SplitTemplateRenderer::new(&split, &handlebars);
    rdr.render_start(&mut output, &object(vec![("name", Json::from_str("SQL"))]))
        .unwrap();
    rdr.render_item(&mut output, &object(vec![("x", Json::from_u64(1))]))
        .unwrap();
    rdr.render_item(&mut output, &object(vec![("x", Json::from_u64(2))]))
        .unwrap();
    rdr.render_end(&mut output).unwrap();
    assert_eq!(
        String::from_utf8_lossy(&output),
        "Hello SQL ! (1 : SQL)  (2 : SQL) Goodbye SQL"
    );
}

#[test]
fn test_delayed() {
    let template = Template::compile(
        "{{#each_row}}<b> {{x}} {{#delay}} {{x}} </b>{{/delay}}{{/each_row}}{{flush_delayed}}",
    )
    .unwrap();
    let split = split_template(template);
    let mut output = Vec::new();
    let handlebars = engine();
    let mut rdr = SplitTemplateRenderer::new(&split, &handlebars);
    rdr.render_start(&mut output, &Json::Null).unwrap();
    rdr.render_item(&mut output, &object(vec![("x", Json::from_u64(1))]))
        .unwrap();
    rdr.render_item(&mut output, &object(vec![("x", Json::from_u64(2))]))
        .unwrap();
    rdr.render_end(&mut output).unwrap();
    assert_eq!(
        String::from_utf8_lossy(&output),
        "<b> 1 <b> 2  2 </b> 1 </b>"
    );
}

#[test]
fn a_template_without_row_block_renders_once() {
    let source = "Hello {{name}} !";
    let split = split_template(Template::compile(source).unwrap());
    let handlebars = Handlebars::new();
    let data = object(vec![("name", Json::from_str("SQL"))]);
    let mut rdr = SplitTemplateRenderer::new(&split, &handlebars);
    let mut output = Vec::new();
    rdr.render_start(&mut output, &data).unwrap();
    let whole = handlebars
        .render_template(source, &serde_json::from_str::<serde_json::Value>("{\"name\":\"SQL\"}").unwrap())
        .unwrap();
    assert_eq!(text(&output), whole);
    rdr.render_item(&mut output, &data).unwrap();
    rdr.render_item(&mut output, &data).unwrap();
    rdr.render_end(&mut output).unwrap();
    assert_eq!(text(&output), "Hello SQL !");
}

#[test]
fn render_item_after_end_does_nothing() {
    let split = split_template(Template::compile("a{{#each_row}}b{{/each_row}}c").unwrap());
    let handlebars = Handlebars::new();
    let mut rdr = SplitTemplateRenderer::new(&split, &handlebars);
    let mut output = Vec::new();
    rdr.render_start(&mut output, &Json::Null).unwrap();
    rdr.render_item(&mut output, &Json::Null).unwrap();
    rdr.render_end(&mut output).unwrap();
    assert_eq!(text(&output), "abc");
    rdr.render_item(&mut output, &Json::Null).unwrap();
    rdr.render_item(&mut output, &Json::Null).unwrap();
    rdr.render_end(&mut output).unwrap();
    assert_eq!(text(&output), "abc");
}

#[test]
fn render_item_before_start_does_nothing() {
    let split = split_template(Template::compile("a{{#each_row}}b{{/each_row}}c").unwrap());
    let handlebars = Handlebars::new();
    let mut rdr = SplitTemplateRenderer::new(&split, &handlebars);
    let mut output = Vec::new();
    rdr.render_item(&mut output, &Json::Null).unwrap();
    rdr.render_end(&mut output).unwrap();
    assert_eq!(text(&output), "");
}

#[test]
fn end_without_rows_renders_the_closing() {
    let split = split_template(Template::compile("a{{#each_row}}b{{/each_row}}c").unwrap());
    let handlebars = Handlebars::new();
    let mut rdr = SplitTemplateRenderer::new(&split, &handlebars);
    let mut output = Vec::new();
    rdr.render_start(&mut output, &Json::Null).unwrap();
    rdr.render_end(&mut output).unwrap();
    assert_eq!(text(&output), "ac");
}

#[test]
fn row_index_counts_the_rows_from_zero() {
    let split = split_template(
        Template::compile("{{#each_row}}{{@row_index}}={{v}} {{/each_row}}").unwrap(),
    );
    let handlebars = Handlebars::new();
    let mut rdr = SplitTemplateRenderer::new(&split, &handlebars);
    let mut output = Vec::new();
    rdr.render_start(&mut output, &Json::Null).unwrap();
    for v in ["a", "b", "c"] {
        rdr.render_item(&mut output, &object(vec![("v", Json::from_str(v))]))
            .unwrap();
    }
    assert_eq!(text(&output), "0=a 1=b 2=c ");
    rdr.render_start(&mut output, &Json::Null).unwrap();
    rdr.render_item(&mut output, &object(vec![("v", Json::from_str("d"))]))
        .unwrap();
    assert_eq!(text(&output), "0=a 1=b 2=c 0=d ");
}

#[test]
fn a_row_that_fails_ends_the_component() {
    let split = split_template(
        Template::compile("a{{#each_row}}{{v}}{{missing}}{{/each_row}}c").unwrap(),
    );
    let handlebars = failing_engine();
    let mut rdr = SplitTemplateRenderer::new(&split, &handlebars);
    let mut output = Vec::new();
    rdr.render_start(&mut output, &Json::Null).unwrap();
    let e = rdr
        .render_item(&mut output, &object(vec![("v", Json::from_str("x"))]))
        .err()
        .unwrap();
    assert_eq!(e.kind, ErrorKind::Render);
    assert!(e.message.contains("missing"));
    assert_eq!(text(&output), "ax");
    rdr.render_item(&mut output, &object(vec![("v", Json::from_str("y"))]))
        .unwrap();
    rdr.render_end(&mut output).unwrap();
    assert_eq!(text(&output), "ax");
}

#[test]
fn the_name_is_that_of_the_template() {
    let handlebars = Handlebars::new();
    let named = split_template(Template::compile_with_name("a", "card".to_string()).unwrap());
    assert_eq!(SplitTemplateRenderer::new(&named, &handlebars).name(), "card");
    let unnamed = split_template(Template::compile("a").unwrap());
    assert_eq!(SplitTemplateRenderer::new(&unnamed, &handlebars).name(), "");
}

#[test]
fn a_page_is_rendered_component_by_component() {
    let templates = registry();
    let first = object(vec![
        ("component", Json::from_str("shell")),
        ("title", Json::from_str("T")),
    ]);
    let mut page = RenderContext::new(&templates, Vec::new(), first).unwrap();
    assert_eq!(text(&page.writer), "<html>T[default ");
    page.handle_row(&object(vec![("x", Json::from_u64(1))])).unwrap();
    page.handle_row(&object(vec![
        ("component", Json::from_str("text")),
        ("title", Json::from_str("News")),
    ]))
    .unwrap();
    page.handle_row(&object(vec![("contents", Json::from_str("a"))]))
        .unwrap();
    page.handle_row(&object(vec![
        ("component", Json::from_str("text")),
        ("contents", Json::from_str("b")),
    ]))
    .unwrap();
    let out = page.close();
    assert_eq!(text(&out), "<html>T[default (1)]<p>News0:a;1:b;</p></html>");
}

#[test]
fn the_first_record_names_the_first_component() {
    let templates = registry();
    let first = object(vec![
        ("component", Json::from_str("text")),
        ("title", Json::from_str("News")),
    ]);
    let page = RenderContext::new(&templates, b"x".to_vec(), first).unwrap();
    assert_eq!(text(&page.writer), "x<html><p>News");
    let plain = object(vec![("title", Json::from_str("plain"))]);
    let page = RenderContext::new(&templates, Vec::new(), plain).unwrap();
    assert_eq!(text(&page.writer), "<html>[default plain");
}

#[test]
fn a_page_needs_its_shell_and_its_first_component() {
    let mut templates = AllTemplates::init(Handlebars::new());
    let e = RenderContext::new(&templates, Vec::new(), Json::Null).err().unwrap();
    assert_eq!(e.kind, ErrorKind::ComponentNotFound);
    assert_eq!(e.message, "The shell component should always exist");
    assert_eq!(e.causes, vec!["The component 'shell' was not found."]);
    templates.add_template("shell", "s").unwrap();
    let first = object(vec![("component", Json::from_str("chart"))]);
    let e = RenderContext::new(&templates, Vec::new(), first).err().unwrap();
    assert_eq!(e.kind, ErrorKind::ComponentNotFound);
    assert_eq!(
        e.message,
        "Unable to open the rendering context because opening the chart component failed"
    );
    assert_eq!(e.causes, vec!["The component 'chart' was not found."]);
    let e = RenderContext::new(&templates, Vec::new(), Json::Null).err().unwrap();
    assert_eq!(
        e.message,
        "Unable to open the rendering context because opening the default component failed"
    );
}

#[test]
fn an_unknown_component_fails_the_row() {
    let templates = registry();
    let mut page = RenderContext::new(&templates, Vec::new(), Json::Null).unwrap();
    let e = page
        .handle_row(&object(vec![("component", Json::from_str("chart"))]))
        .err()
        .unwrap();
    assert_eq!(e.kind, ErrorKind::ComponentNotFound);
    assert_eq!(e.message, "The component 'chart' was not found.");
}

#[test]
fn a_dynamic_record_dispatches_its_records_in_order() {
    let templates = registry();
    let first = object(vec![("component", Json::from_str("text"))]);
    let mut page = RenderContext::new(&templates, Vec::new(), first).unwrap();
    page.writer.clear();
    let dynamic = object(vec![
        ("component", Json::from_str("dynamic")),
        (
            "parameters",
            Json::from_str("[{\"contents\":\"a\"},{\"contents\":\"b\"},{\"contents\":\"c\"}]"),
        ),
    ]);
    page.handle_row(&dynamic).unwrap();
    assert_eq!(text(&page.writer), "0:a;1:b;2:c;");
}

#[test]
fn a_dynamic_record_takes_an_object_an_array_or_json_text() {
    let templates = registry();
    let first = object(vec![("component", Json::from_str("text"))]);
    let mut page = RenderContext::new(&templates, Vec::new(), first).unwrap();
    page.writer.clear();
    let row = |contents: &str| object(vec![("contents", Json::from_str(contents))]);
    let dynamic = |parameters: Json| {
        object(vec![
            ("component", Json::from_str("dynamic")),
            ("parameters", parameters),
        ])
    };
    page.handle_row(&dynamic(row("object"))).unwrap();
    page.handle_row(&dynamic(Json::Array(vec![row("first"), row("second")])))
        .unwrap();
    page.handle_row(&dynamic(Json::from_str("{\"contents\":\"text\"}")))
        .unwrap();
    page.handle_row(&dynamic(Json::Array(vec![]))).unwrap();
    assert_eq!(text(&page.writer), "0:object;1:first;2:second;3:text;");
}

#[test]
fn a_dynamic_record_may_open_components() {
    let templates = registry();
    let mut page = RenderContext::new(&templates, Vec::new(), Json::Null).unwrap();
    page.writer.clear();
    let dynamic = object(vec![
        ("component", Json::from_str("dynamic")),
        (
            "parameters",
            Json::from_str(
                "[{\"component\":\"text\",\"title\":\"t\"},{\"contents\":\"a\"},\
                 {\"component\":\"dynamic\",\"parameters\":[{\"contents\":\"b\"}]}]",
            ),
        ),
    ]);
    page.handle_row(&dynamic).unwrap();
    assert_eq!(text(&page.writer), "]<p>t0:a;1:b;");
}

#[test]
fn a_dynamic_record_without_records_fails() {
    let templates = registry();
    let mut page = RenderContext::new(&templates, Vec::new(), Json::Null).unwrap();
    let before = page.writer.clone();
    let cases = vec![
        object(vec![("component", Json::from_str("dynamic"))]),
        object(vec![
            ("component", Json::from_str("dynamic")),
            ("parameters", Json::from_u64(3)),
        ]),
        object(vec![
            ("component", Json::from_str("dynamic")),
            ("parameters", Json::from_str("not json")),
        ]),
        object(vec![
            ("component", Json::from_str("dynamic")),
            ("parameters", Json::from_str("\"a json string\"")),
        ]),
    ];
    for case in cases {
        let e = page.handle_row(&case).err().unwrap();
        assert_eq!(e.kind, ErrorKind::InvalidDynamic);
        assert_eq!(page.writer, before);
    }
}

fn nested_dynamic(levels: usize) -> Json {
    let mut record = object(vec![("contents", Json::from_str("deep"))]);
    for _ in 0..levels {
        record = object(vec![
            ("component", Json::from_str("dynamic")),
            ("parameters", record),
        ]);
    }
    record
}

#[test]
fn dynamic_records_nest_up_to_the_ceiling() {
    let templates = registry();
    let first = object(vec![("component", Json::from_str("text"))]);
    let mut page = RenderContext::new(&templates, Vec::new(), first).unwrap();
    page.writer.clear();
    page.handle_row(&nested_dynamic(MAX_RECURSION_DEPTH + 1)).unwrap();
    assert_eq!(text(&page.writer), "0:deep;");
}

#[test]
fn dynamic_records_nested_too_deep_fail() {
    let templates = registry();
    let first = object(vec![("component", Json::from_str("text"))]);
    let mut page = RenderContext::new(&templates, Vec::new(), first).unwrap();
    page.writer.clear();
    for levels in [MAX_RECURSION_DEPTH + 2, 300, 1000] {
        let e = page.handle_row(&nested_dynamic(levels)).err().unwrap();
        assert_eq!(e.kind, ErrorKind::RecursionLimit);
        assert_eq!(
            e.message,
            "Maximum recursion depth exceeded in the dynamic component."
        );
    }
    assert_eq!(text(&page.writer), "");
    page.handle_row(&object(vec![("contents", Json::from_str("after"))]))
        .unwrap();
    assert_eq!(text(&page.writer), "0:after;");
}

#[test]
fn an_error_is_shown_in_the_page() {
    let templates = registry();
    let first = object(vec![("component", Json::from_str("text"))]);
    let mut page = RenderContext::new(&templates, Vec::new(), first).unwrap();
    page.finish_query().unwrap();
    page.finish_query().unwrap();
    page.writer.clear();
    let error = Error::new(ErrorKind::Statement, "no such table")
        .context("Failed to execute SQL statement");
    page.handle_error(&error).unwrap();
    assert_eq!(
        text(&page.writer),
        "</p><error q=3>Failed to execute SQL statement|no such table</error>"
    );
    page.writer.clear();
    page.handle_row(&object(vec![("contents", Json::from_str("lost"))]))
        .unwrap();
    assert_eq!(text(&page.writer), "");
    let out = page.close();
    assert_eq!(text(&out), "</html>");
}

#[test]
fn an_error_needs_the_error_component() {
    let mut templates = AllTemplates::init(Handlebars::new());
    templates.add_template("shell", "s").unwrap();
    templates.add_template("default", "d").unwrap();
    let mut page = RenderContext::new(&templates, Vec::new(), Json::Null).unwrap();
    let e = page
        .handle_error(&Error::new(ErrorKind::Statement, "boom"))
        .err()
        .unwrap();
    assert_eq!(e.kind, ErrorKind::ComponentNotFound);
    assert_eq!(e.message, "The component 'error' was not found.");
}

#[test]
fn handle_result_shows_only_failures() {
    let templates = registry();
    let mut page = RenderContext::new(&templates, Vec::new(), Json::Null).unwrap();
    page.writer.clear();
    let fine: Result<u8, Error> = Ok(1);
    page.handle_result(&fine).unwrap();
    assert_eq!(text(&page.writer), "");
    let failed: Result<u8, Error> = Err(Error::new(ErrorKind::Statement, "boom"));
    page.handle_result(&failed).unwrap();
    assert_eq!(text(&page.writer), "]<error q=1>boom</error>");
    page.writer.clear();
    page.handle_result_and_log(&failed);
    assert_eq!(text(&page.writer), "<error q=1>boom</error>");
}

#[test]
fn an_error_that_cannot_be_shown_still_ends_the_component() {
    let mut templates = AllTemplates::init(Handlebars::new());
    templates.add_template("shell", "<html>{{#each_row}}{{/each_row}}</html>").unwrap();
    templates
        .add_template("default", "[{{#each_row}}({{x}}){{/each_row}}]")
        .unwrap();
    let mut page = RenderContext::new(&templates, Vec::new(), Json::Null).unwrap();
    page.handle_row(&object(vec![("x", Json::from_u64(1))])).unwrap();
    assert_eq!(text(&page.writer), "<html>[(1)");
    let failed: Result<u8, Error> = Err(Error::new(ErrorKind::Statement, "boom"));
    page.handle_result_and_log(&failed);
    assert_eq!(text(&page.writer), "<html>[(1)]");
    page.handle_row(&object(vec![("x", Json::from_u64(2))])).unwrap();
    assert_eq!(text(&page.writer), "<html>[(1)]");
    let fine: Result<u8, Error> = Ok(1);
    page.handle_result_and_log(&fine);
    assert_eq!(text(&page.close()), "<html>[(1)]</html>");
}

#[test]
fn the_error_record_holds_number_description_and_backtrace() {
    let error = Error::new(ErrorKind::Statement, "root").context("middle").context("top");
    let record = error_record(&error, 7);
    assert_eq!(
        record.to_text(),
        "{\"backtrace\":[\"middle\",\"root\"],\"description\":\"top\",\"query_number\":7}"
    );
    assert_eq!(record.get("component"), None);
}

#[test]
fn closing_ends_the_component_then_the_shell() {
    let mut templates = AllTemplates::init(engine());
    templates
        .add_template("shell", "<html>{{#delay}}</html>{{/delay}}{{#each_row}}{{/each_row}}{{flush_delayed}}")
        .unwrap();
    templates
        .add_template("default", "<div>{{#each_row}}{{x}}{{/each_row}}</div>")
        .unwrap();
    let mut page = RenderContext::new(&templates, Vec::new(), Json::Null).unwrap();
    page.handle_row(&object(vec![("x", Json::from_str("row"))])).unwrap();
    let out = page.close();
    assert_eq!(text(&out), "<html><div>row</div></html>");
}

#[test]
fn finishing_ends_the_page_once() {
    let templates = registry();
    let first = object(vec![("component", Json::from_str("text"))]);
    let mut page = RenderContext::new(&templates, Vec::new(), first).unwrap();
    page.handle_row(&object(vec![("contents", Json::from_str("a"))]))
        .unwrap();
    page.finish();
    assert_eq!(text(&page.writer), "<html><p>0:a;</p></html>");
    page.handle_row(&object(vec![("contents", Json::from_str("late"))]))
        .unwrap();
    page.finish();
    assert_eq!(text(&page.close()), "<html><p>0:a;</p></html>");
}

#[test]
fn opening_a_component_ends_the_open_one_first() {
    let templates = registry();
    let mut page = RenderContext::new(&templates, Vec::new(), Json::Null).unwrap();
    page.writer.clear();
    page.handle_row(&object(vec![
        ("component", Json::from_str("text")),
        ("title", Json::from_str("t")),
    ]))
    .unwrap();
    assert_eq!(text(&page.writer), "]<p>t");
    page.writer.clear();
    page.handle_row(&object(vec![("component", Json::from_str("default"))]))
        .unwrap();
    assert_eq!(text(&page.writer), "</p>[default ");
}

#[test]
fn a_failed_closing_is_shown_as_an_error() {
    let mut templates = AllTemplates::init(failing_engine());
    templates.add_template("shell", "<html>{{#each_row}}{{/each_row}}</html>").unwrap();
    templates
        .add_template("default", "<div>{{#each_row}}{{/each_row}}{{missing}}</div>")
        .unwrap();
    templates
        .add_template("error", "{{#each_row}}<error>{{description}}</error>{{/each_row}}")
        .unwrap();
    let page = RenderContext::new(&templates, Vec::new(), Json::Null).unwrap();
    let out = text(&page.close());
    assert!(out.starts_with("<html><div><error>Unable to render the component closing: "));
    assert!(out.ends_with("</error></html>"));
}

#[test]
fn header_records_add_headers() {
    let templates = registry();
    let head = HeaderContext::new(&templates, Vec::new());
    let record = object(vec![
        ("component", Json::from_str("http_header")),
        ("X-Test", Json::from_str("1")),
        ("Location", Json::from_str("/x")),
    ]);
    let head = match head.handle_row(record).unwrap() {
        PageContext::Header(head) => head,
        PageContext::Body { .. } => panic!("the body was opened"),
    };
    let second = object(vec![
        ("Cache-Control", Json::from_str("no-store")),
        ("component", Json::from_str("http_header")),
    ]);
    let head = match head.handle_row(second).unwrap() {
        PageContext::Header(head) => head,
        PageContext::Body { .. } => panic!("the body was opened"),
    };
    let response = head.close();
    assert_eq!(response.status, 200);
    let expected: Vec<(String, String)> = vec![
        ("Content-Type", "text/html; charset=utf-8"),
        ("X-Test", "1"),
        ("Location", "/x"),
        ("Cache-Control", "no-store"),
    ]
    .into_iter()
    .map(|(k, v)| (k.to_string(), v.to_string()))
    .collect();
    assert_eq!(response.headers, expected);
}

#[test]
fn a_repeated_header_key_counts_once_with_its_last_value() {
    let templates = registry();
    let head = HeaderContext::new(&templates, Vec::new());
    let record = object(vec![
        ("X-Test", Json::from_u64(1)),
        ("component", Json::from_str("text")),
        ("Location", Json::from_str("/old")),
        ("component", Json::from_str("http_header")),
        ("X-Test", Json::from_str("2")),
        ("Location", Json::from_str("/new")),
    ]);
    let head = match head.handle_row(record).unwrap() {
        PageContext::Header(head) => head,
        PageContext::Body { .. } => panic!("the body was opened"),
    };
    let response = head.close();
    let expected: Vec<(String, String)> = vec![
        ("Content-Type", "text/html; charset=utf-8"),
        ("X-Test", "2"),
        ("Location", "/new"),
    ]
    .into_iter()
    .map(|(k, v)| (k.to_string(), v.to_string()))
    .collect();
    assert_eq!(response.headers, expected);
}

#[test]
fn an_empty_dynamic_record_leaves_the_page_as_it_was() {
    let templates = registry();
    let first = object(vec![("component", Json::from_str("text"))]);
    let mut page = RenderContext::new(&templates, Vec::new(), first).unwrap();
    page.handle_row(&object(vec![("contents", Json::from_str("a"))]))
        .unwrap();
    let before = page.writer.clone();
    page.handle_row(&object(vec![
        ("component", Json::from_str("dynamic")),
        ("parameters", Json::from_str("[]")),
    ]))
    .unwrap();
    assert_eq!(page.writer, before);
    page.handle_row(&object(vec![("contents", Json::from_str("b"))]))
        .unwrap();
    assert_eq!(text(&page.writer), "<html><p>0:a;1:b;");
}

#[test]
fn nested_records_are_handled_as_records_of_their_own() {
    let templates = registry();
    let rows = vec![
        object(vec![("component", Json::from_str("text")), ("title", Json::from_str("t"))]),
        object(vec![("contents", Json::from_str("a"))]),
        object(vec![("component", Json::from_str("default"))]),
        object(vec![("x", Json::from_u64(7))]),
    ];
    let mut fed = RenderContext::new(&templates, Vec::new(), Json::Null).unwrap();
    for row in &rows {
        fed.handle_row(row).unwrap();
    }
    let mut nested = RenderContext::new(&templates, Vec::new(), Json::Null).unwrap();
    nested
        .handle_row(&object(vec![
            ("component", Json::from_str("dynamic")),
            ("parameters", Json::Array(rows)),
        ]))
        .unwrap();
    assert_eq!(nested.writer, fed.writer);
    assert_eq!(text(&nested.close()), text(&fed.close()));
}

#[test]
fn header_values_must_be_strings() {
    let templates = registry();
    let head = HeaderContext::new(&templates, Vec::new());
    let record = object(vec![
        ("component", Json::from_str("http_header")),
        ("X-Test", Json::from_str("1")),
        ("Content-Length", Json::from_u64(12)),
    ]);
    let e = head.handle_row(record).err().unwrap();
    assert_eq!(e.kind, ErrorKind::InvalidHeader);
    assert_eq!(e.message, "http header values must be strings");
}

#[test]
fn the_first_body_record_fixes_the_headers() {
    let templates = registry();
    let head = HeaderContext::new(&templates, b"pre".to_vec());
    let record = object(vec![
        ("component", Json::from_str("text")),
        ("title", Json::from_str("News")),
    ]);
    match head.handle_row(record).unwrap() {
        PageContext::Header(_) => panic!("the headers are still open"),
        PageContext::Body { http_response, renderer } => {
            assert_eq!(http_response.status, 200);
            assert_eq!(http_response.headers.len(), 1);
            assert_eq!(text(&renderer.writer), "pre<html><p>News");
        }
    }
}

#[test]
fn an_error_before_the_body_opens_the_body() {
    let templates = registry();
    let head = HeaderContext::new(&templates, Vec::new());
    let error = Error::new(ErrorKind::Statement, "boom");
    match head.handle_error(error).unwrap() {
        PageContext::Header(_) => panic!("the headers are still open"),
        PageContext::Body { renderer, .. } => {
            assert_eq!(
                text(&renderer.writer),
                "<html>[default ]<error q=1>boom</error>"
            );
        }
    }
}
