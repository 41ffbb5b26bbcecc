//! Rendering a page while its rows arrive.
//!
//! A [`SplitTemplateRenderer`] renders one component: its opening once, its
//! row fragment once per row, its closing once. A [`RenderContext`] owns the
//! page's shell and the component that is currently open, and decides for
//! each record whether it opens another component, expands into nested
//! records, or is one more row of the open component. A [`HeaderContext`]
//! collects HTTP headers until the first record that belongs to the body.

use crate::error::{Error, ErrorKind};
use crate::http::ResponseHead;
use crate::json::{get_object_str, json_to_value, lookup, object_str, parsed_json, str_eq, Json};
use crate::templates::{
    not_found_message, template_elements, template_name, template_name_ref, AllTemplates,
    SplitTemplate,
};
use handlebars::{
    BlockContext, Context, Handlebars, LocalVars, RenderError, Renderable, StringOutput, Template,
};
use vstd::prelude::*;
use vstd::string::StringExecFns;

verus! {

#[verifier::external_type_specification]
#[verifier::external_body]
pub struct ExContext(Context);

#[verifier::external_type_specification]
#[verifier::external_body]
pub struct ExLocalVars(LocalVars);

#[verifier::external_type_specification]
#[verifier::external_body]
pub struct ExRenderError(RenderError);

/// The text of a `RenderError`, as its `Display` prints it.
pub uninterp spec fn render_error_text(error: RenderError) -> Seq<char>;

/// Calls `to_string` on a `RenderError`.
#[verifier::external_body]
fn render_error_message(error: &RenderError) -> (r: String)
    ensures
        r@ == render_error_text(*error),
{
    error.to_string()
}

/// The data that a render root wraps.
pub uninterp spec fn context_data(ctx: Context) -> serde_json::Value;

/// Calls `LocalVars::default`: a block scope without local variables.
#[verifier::external_body]
fn empty_local_vars() -> LocalVars {
    LocalVars::default()
}

/// Calls `Context::null`: a render root without data.
#[verifier::external_body]
fn null_context() -> Context {
    Context::null()
}

/// Renders a template with `data` as the render root and hands back the
/// local variables of the outermost block scope.
///
/// Stores `data` through `Context::data_mut`, then calls `Renderable::render`
/// on a fresh `RenderContext`. Whatever the template writes is appended to
/// `out`, also where rendering fails midway. A template without elements
/// writes nothing and succeeds.
#[verifier::external_body]
fn render_opening(
    handlebars: &Handlebars<'static>,
    template: &Template,
    ctx: &mut Context,
    data: serde_json::Value,
    out: &mut Vec<u8>,
) -> (r: Result<Option<LocalVars>, RenderError>)
    ensures
        context_data(*final(ctx)) == data,
        old(out)@.is_prefix_of(final(out)@),
        template_elements(*template).len() == 0 ==> r is Ok && final(out)@ == old(out)@,
{
    *ctx.data_mut() = data;
    let mut rc = handlebars::RenderContext::new(None);
    let mut buffer = StringOutput::new();
    let result = template.render(handlebars, ctx, &mut rc, &mut buffer);
    out.extend_from_slice(buffer.into_string().unwrap_or_default().as_bytes());
    result.map(|()| rc.block_mut().map(|block| std::mem::take(block.local_variables_mut())))
}

/// Renders a template for one row and hands back the local variables of the
/// outermost block scope.
///
/// Calls `Renderable::render` on a fresh `RenderContext` whose outermost
/// scope holds `local_vars`, inside a pushed block scope whose base value is
/// `row` and which binds the local variable `index_name` to `index`. Whatever
/// the template writes is appended to `out`. A template without elements
/// writes nothing and succeeds.
#[verifier::external_body]
fn render_row(
    handlebars: &Handlebars<'static>,
    template: &Template,
    ctx: &Context,
    local_vars: LocalVars,
    row: serde_json::Value,
    index_name: &str,
    index: usize,
    out: &mut Vec<u8>,
) -> (r: Result<Option<LocalVars>, RenderError>)
    ensures
        old(out)@.is_prefix_of(final(out)@),
        template_elements(*template).len() == 0 ==> r is Ok && final(out)@ == old(out)@,
{
    let mut rc = handlebars::RenderContext::new(None);
    rc.block_mut().map(|base| *base.local_variables_mut() = local_vars);
    let mut block = BlockContext::new();
    block.set_base_value(row);
    block.set_local_var(index_name, serde_json::Value::from(index));
    rc.push_block(block);
    let mut buffer = StringOutput::new();
    let result = template.render(handlebars, ctx, &mut rc, &mut buffer);
    out.extend_from_slice(buffer.into_string().unwrap_or_default().as_bytes());
    rc.pop_block();
    result.map(|()| rc.block_mut().map(|base| std::mem::take(base.local_variables_mut())))
}

/// Renders a template with the local variables that the rows left behind.
///
/// Calls `Renderable::render` on a fresh `RenderContext` whose outermost
/// scope holds `local_vars`. Whatever the template writes is appended to
/// `out`. A template without elements writes nothing and succeeds.
#[verifier::external_body]
fn render_closing(
    handlebars: &Handlebars<'static>,
    template: &Template,
    ctx: &Context,
    local_vars: LocalVars,
    out: &mut Vec<u8>,
) -> (r: Result<(), RenderError>)
    ensures
        old(out)@.is_prefix_of(final(out)@),
        template_elements(*template).len() == 0 ==> r is Ok && final(out)@ == old(out)@,
{
    let mut rc = handlebars::RenderContext::new(None);
    rc.block_mut().map(|base| *base.local_variables_mut() = local_vars);
    let mut buffer = StringOutput::new();
    let result = template.render(handlebars, ctx, &mut rc, &mut buffer);
    out.extend_from_slice(buffer.into_string().unwrap_or_default().as_bytes());
    result
}

/// The error that stands for a failed rendering.
fn render_failure(error: &RenderError) -> (r: Error)
    ensures
        r.kind == ErrorKind::Render,
        r.message@ == render_error_text(*error),
        r.causes@.len() == 0,
        r.status is None,
        !r.pool_timed_out,
{
    let message = render_error_message(error);
    Error::new(ErrorKind::Render, message.as_str())
}

/// One call of the template engine for a component.
pub enum RenderCall {
    /// The opening was rendered with this page data.
    Start(Json),
    /// The row fragment was rendered with this row as the current item and
    /// this number as its `row_index`.
    Item(Json, nat),
    /// The closing was rendered.
    End,
}

/// An in-progress render of one component.
///
/// The local state is what the template's block scope holds between two
/// calls: loop-carried variables and deferred content. It is there from a
/// successful `render_start` until `render_end`, or until a row fails.
pub struct SplitTemplateRenderer<'a> {
    split_template: &'a SplitTemplate,
    handlebars: &'a Handlebars<'static>,
    local_vars: Option<LocalVars>,
    ctx: Context,
    row_index: usize,
    calls: Ghost<Seq<RenderCall>>,
}

impl<'a> SplitTemplateRenderer<'a> {
    /// The calls of the template engine that were made for this component,
    /// in order.
    pub closed spec fn calls(self) -> Seq<RenderCall> {
        self.calls@
    }

    /// The component that is rendered.
    pub closed spec fn template(self) -> SplitTemplate {
        *self.split_template
    }

    /// The engine that renders it.
    pub closed spec fn engine(self) -> Handlebars<'static> {
        *self.handlebars
    }

    /// Whether the local state is present: the component was started and is
    /// not finished.
    pub closed spec fn is_open(self) -> bool {
        self.local_vars is Some
    }

    /// The local state, where it is present.
    pub closed spec fn local_state(self) -> Option<LocalVars> {
        self.local_vars
    }

    /// The number of rows rendered since the component was started.
    pub closed spec fn row_count(self) -> nat {
        self.row_index as nat
    }

    /// The render root: the page data, once the component was started.
    pub closed spec fn root(self) -> Context {
        self.ctx
    }

    /// The page data: what the render root wraps.
    pub open spec fn page_data(self) -> serde_json::Value {
        context_data(self.root())
    }

    /// The component's name: that of its row fragment, empty where it has none.
    pub open spec fn spec_name(self) -> Seq<char> {
        match template_name(self.template().list_content) {
            Some(name) => name,
            None => Seq::empty(),
        }
    }

    /// The engine calls of a component after it was ended: the closing was
    /// rendered if the local state was present, and nothing else.
    pub open spec fn calls_when_ended(self) -> Seq<RenderCall> {
        if self.is_open() {
            self.calls().push(RenderCall::End)
        } else {
            self.calls()
        }
    }

    /// Whether `self` is what ending `before` leaves: the same component with
    /// the same count of rows, without local state, its closing rendered if
    /// `before` had local state.
    pub open spec fn is_ended(self, before: Self) -> bool {
        &&& self.template() == before.template()
        &&& self.row_count() == before.row_count()
        &&& !self.is_open()
        &&& self.calls() == before.calls_when_ended()
    }

    /// Whether `self` renders the "error" component of `registry` for an
    /// error that is being shown: it was started, without page data, before
    /// anything else was rendered for it.
    pub open spec fn is_error_attempt(self, registry: AllTemplates) -> bool {
        &&& registry.component("error"@) == Some(self.template())
        &&& self.calls().len() > 0
        &&& self.calls()[0] == RenderCall::Start(Json::Null)
    }

    /// The engine call that ending the component makes: its closing, if the
    /// local state is present.
    pub open spec fn end_calls(self) -> Seq<RenderCall> {
        if self.is_open() {
            seq![RenderCall::End]
        } else {
            Seq::empty()
        }
    }

    /// The engine call that a row makes: the row fragment with the row and
    /// the number of the rows before it, if the local state is present.
    pub open spec fn item_calls(self, data: Json) -> Seq<RenderCall> {
        if self.is_open() {
            seq![RenderCall::Item(data, self.row_count())]
        } else {
            Seq::empty()
        }
    }

    /// Whether ending the component cannot fail: it has no local state, or
    /// nothing stands after its rows.
    pub open spec fn ends_quietly(self) -> bool {
        !self.is_open() || template_elements(self.template().after_list).len() == 0
    }

    /// Whether a row cannot fail: the component has no local state, or no
    /// row fragment.
    pub open spec fn takes_rows_quietly(self) -> bool {
        !self.is_open() || template_elements(self.template().list_content).len() == 0
    }

    /// Whether `self` is what a row that was rendered without failure makes
    /// of `before`: the row is counted and logged if the local state was
    /// present, and the local state is as present as it was.
    pub open spec fn is_after_row(self, before: Self, data: Json) -> bool {
        &&& self.template() == before.template()
        &&& self.is_open() == before.is_open()
        &&& self.calls() == before.calls() + before.item_calls(data)
        &&& self.row_count() == if before.is_open() {
            Self::next_row_count(before.row_count())
        } else {
            before.row_count()
        }
    }

    /// Whether `self` is a component that was just started with `data`.
    pub open spec fn is_started(self, template: SplitTemplate, data: Json) -> bool {
        &&& self.template() == template
        &&& self.is_open()
        &&& self.row_count() == 0
        &&& self.calls() == seq![RenderCall::Start(data)]
    }

    /// The row counter after one more row.
    pub open spec fn next_row_count(count: nat) -> nat {
        if count < usize::MAX {
            count + 1
        } else {
            count
        }
    }

    /// A renderer for a component that is not started yet.
    pub fn new(split_template: &'a SplitTemplate, handlebars: &'a Handlebars<'static>) -> (r: Self)
        ensures
            r.template() == *split_template,
            r.engine() == *handlebars,
            !r.is_open(),
            r.row_count() == 0,
            r.calls().len() == 0,
    {
        SplitTemplateRenderer {
            split_template,
            handlebars,
            local_vars: None,
            ctx: null_context(),
            row_index: 0,
            calls: Ghost(Seq::empty()),
        }
    }

    /// The component's name.
    pub fn name(&self) -> (r: &str)
        ensures
            r@ == self.spec_name(),
    {
        match template_name_ref(&self.split_template.list_content) {
            Some(name) => name,
            None => {
                proof {
                    reveal_strlit("");
                }
                assert(""@ == Seq::<char>::empty());
                ""
            },
        }
    }

    /// Takes in what rendering the opening gave.
    ///
    /// After a success the local state is what the opening left (an empty
    /// one where the engine handed none back), and the rows are counted from
    /// zero. After a failure nothing has changed.
    pub fn finish_start(&mut self, outcome: Result<Option<LocalVars>, RenderError>) -> (r: Result<
        (),
        Error,
    >)
        ensures
            final(self).template() == old(self).template(),
            final(self).engine() == old(self).engine(),
            final(self).root() == old(self).root(),
            final(self).calls() == old(self).calls(),
            match outcome {
                Ok(vars) => {
                    &&& r is Ok
                    &&& final(self).is_open()
                    &&& vars is Some ==> final(self).local_state() == vars
                    &&& final(self).row_count() == 0
                },
                Err(e) => {
                    &&& r is Err
                    &&& r->Err_0.kind == ErrorKind::Render
                    &&& r->Err_0.message@ == render_error_text(e)
                    &&& r->Err_0.causes@.len() == 0
                    &&& final(self).local_state() == old(self).local_state()
                    &&& final(self).row_count() == old(self).row_count()
                },
            },
    {
        match outcome {
            Ok(vars) => {
                self.local_vars = match vars {
                    Some(left) => Some(left),
                    None => Some(empty_local_vars()),
                };
                self.row_index = 0;
                Ok(())
            },
            Err(e) => Err(render_failure(&e)),
        }
    }

    /// Takes in what rendering one row gave, for a component whose local
    /// state was handed to the engine.
    ///
    /// After a success the local state is what the row left (an empty one
    /// where the engine handed none back), and the row is counted. After a
    /// failure the local state is gone and the count stays.
    pub fn finish_item(&mut self, outcome: Result<Option<LocalVars>, RenderError>) -> (r: Result<
        (),
        Error,
    >)
        ensures
            final(self).template() == old(self).template(),
            final(self).engine() == old(self).engine(),
            final(self).root() == old(self).root(),
            final(self).calls() == old(self).calls(),
            match outcome {
                Ok(vars) => {
                    &&& r is Ok
                    &&& final(self).is_open()
                    &&& vars is Some ==> final(self).local_state() == vars
                    &&& final(self).row_count() == Self::next_row_count(old(self).row_count())
                },
                Err(e) => {
                    &&& r is Err
                    &&& r->Err_0.kind == ErrorKind::Render
                    &&& r->Err_0.message@ == render_error_text(e)
                    &&& r->Err_0.causes@.len() == 0
                    &&& !final(self).is_open()
                    &&& final(self).row_count() == old(self).row_count()
                },
            },
    {
        match outcome {
            Ok(vars) => {
                self.local_vars = match vars {
                    Some(left) => Some(left),
                    None => Some(empty_local_vars()),
                };
                if self.row_index < usize::MAX {
                    self.row_index += 1;
                }
                Ok(())
            },
            Err(e) => {
                self.local_vars = None;
                Err(render_failure(&e))
            },
        }
    }

    /// Starts the component: binds `data` as the page data and renders what
    /// stands before the rows.
    pub fn render_start(&mut self, writer: &mut Vec<u8>, data: &Json) -> (r: Result<(), Error>)
        ensures
            final(self).template() == old(self).template(),
            final(self).engine() == old(self).engine(),
            final(self).page_data() == crate::json::value_of_json(*data),
            final(self).calls() == old(self).calls().push(RenderCall::Start(*data)),
            old(writer)@.is_prefix_of(final(writer)@),
            match r {
                Ok(()) => final(self).row_count() == 0 && final(self).is_open(),
                Err(e) => {
                    &&& e.kind == ErrorKind::Render
                    &&& e.causes@.len() == 0
                    &&& final(self).local_state() == old(self).local_state()
                    &&& final(self).row_count() == old(self).row_count()
                },
            },
            template_elements(old(self).template().before_list).len() == 0 ==> r is Ok
                && final(writer)@ == old(writer)@,
    {
        let value = json_to_value(data);
        let outcome = render_opening(
            self.handlebars,
            &self.split_template.before_list,
            &mut self.ctx,
            value,
            writer,
        );
        proof {
            self.calls@ = self.calls@.push(RenderCall::Start(*data));
        }
        self.finish_start(outcome)
    }

    /// Renders one row, with `data` as the current item and `row_index` bound
    /// to the number of rows rendered before it.
    ///
    /// Does nothing where the local state is absent: before the component is
    /// started, after it was ended, and after a row that failed.
    pub fn render_item(&mut self, writer: &mut Vec<u8>, data: &Json) -> (r: Result<(), Error>)
        ensures
            final(self).template() == old(self).template(),
            final(self).engine() == old(self).engine(),
            final(self).root() == old(self).root(),
            old(writer)@.is_prefix_of(final(writer)@),
            final(self).calls() == if old(self).is_open() {
                old(self).calls().push(RenderCall::Item(*data, old(self).row_count()))
            } else {
                old(self).calls()
            },
            !old(self).is_open() ==> {
                &&& r is Ok
                &&& final(writer)@ == old(writer)@
                &&& !final(self).is_open()
                &&& final(self).row_count() == old(self).row_count()
            },
            old(self).is_open() ==> match r {
                Ok(()) => final(self).is_open() && final(self).row_count() == Self::next_row_count(
                    old(self).row_count(),
                ),
                Err(e) => {
                    &&& e.kind == ErrorKind::Render
                    &&& e.causes@.len() == 0
                    &&& !final(self).is_open()
                    &&& final(self).row_count() == old(self).row_count()
                },
            },
            template_elements(old(self).template().list_content).len() == 0 ==> r is Ok
                && final(writer)@ == old(writer)@,
    {
        match self.local_vars.take() {
            Some(local_vars) => {
                let value = json_to_value(data);
                let outcome = render_row(
                    self.handlebars,
                    &self.split_template.list_content,
                    &self.ctx,
                    local_vars,
                    value,
                    "row_index",
                    self.row_index,
                    writer,
                );
                proof {
                    self.calls@ = self.calls@.push(
                        RenderCall::Item(*data, self.row_index as nat),
                    );
                }
                self.finish_item(outcome)
            },
            None => Ok(()),
        }
    }

    /// Ends the component: renders what stands after the rows, with the local
    /// state that the rows left, and drops that state.
    ///
    /// Does nothing where the local state is absent.
    pub fn render_end(&mut self, writer: &mut Vec<u8>) -> (r: Result<(), Error>)
        ensures
            final(self).template() == old(self).template(),
            final(self).engine() == old(self).engine(),
            final(self).root() == old(self).root(),
            final(self).row_count() == old(self).row_count(),
            !final(self).is_open(),
            final(self).calls() == if old(self).is_open() {
                old(self).calls().push(RenderCall::End)
            } else {
                old(self).calls()
            },
            old(writer)@.is_prefix_of(final(writer)@),
            !old(self).is_open() ==> r is Ok && final(writer)@ == old(writer)@,
            r matches Err(e) ==> e.kind == ErrorKind::Render && e.causes@.len() == 0,
            template_elements(old(self).template().after_list).len() == 0 ==> r is Ok
                && final(writer)@ == old(writer)@,
    {
        match self.local_vars.take() {
            Some(local_vars) => {
                proof {
                    self.calls@ = self.calls@.push(RenderCall::End);
                }
                match render_closing(
                    self.handlebars,
                    &self.split_template.after_list,
                    &self.ctx,
                    local_vars,
                    writer,
                ) {
                    Ok(()) => Ok(()),
                    Err(e) => Err(render_failure(&e)),
                }
            },
            None => Ok(()),
        }
    }
}

/// How deep "dynamic" records may nest.
pub const MAX_RECURSION_DEPTH: usize = 256;

/// The control key of a record.
pub open spec fn component_key() -> Seq<char> {
    "component"@
}

/// The component that a record names with its control key, if it names one.
pub open spec fn component_of(data: Json) -> Option<Seq<char>> {
    object_str(data, component_key())
}

/// The kinds of error that dispatching a record can give.
pub open spec fn is_render_failure(kind: ErrorKind) -> bool {
    ||| kind == ErrorKind::Render
    ||| kind == ErrorKind::ComponentNotFound
    ||| kind == ErrorKind::RecursionLimit
    ||| kind == ErrorKind::InvalidDynamic
}

/// Whether a record is a "dynamic" record: one that stands for the records
/// nested in it.
pub open spec fn is_dynamic(data: Json) -> bool {
    component_of(data) == Some("dynamic"@)
}

/// The component that a record opens while `current` is the name of the open
/// one: the one it names, unless that is the open one or "dynamic".
pub open spec fn opened_by(data: Json, current: Seq<char>) -> Option<Seq<char>> {
    match component_of(data) {
        Some(name) => if name == "dynamic"@ || name == current {
            None
        } else {
            Some(name)
        },
        None => None,
    }
}

/// The records that a nested value stands for: the items of an array, or a
/// single object.
pub open spec fn records_of(nested: Json) -> Option<Seq<Json>> {
    match nested {
        Json::Array(items) => Some(items@),
        Json::Object(_) => Some(seq![nested]),
        _ => None,
    }
}

/// The records nested in a "dynamic" record: what its `parameters` field
/// stands for, which is an object, an array, or a string that holds the JSON
/// text of one.
pub open spec fn nested_records(data: Json) -> Option<Seq<Json>> {
    match data.spec_get("parameters"@) {
        Some(Json::String(text)) => match parsed_json(text@) {
            Some(parsed) => records_of(parsed),
            None => None,
        },
        Some(other) => records_of(other),
        None => None,
    }
}

/// The records that dispatching `data` dispatches, in order, each with the
/// depth at which it is dispatched: the record itself and, where it is a
/// "dynamic" record that may be expanded at this depth, everything that its
/// nested records dispatch one level deeper.
pub open spec fn dispatch_order(data: Json, depth: nat) -> Seq<(Json, nat)>
    decreases MAX_RECURSION_DEPTH + 1 - depth, 0nat,
{
    if is_dynamic(data) && depth <= MAX_RECURSION_DEPTH {
        match nested_records(data) {
            Some(items) => seq![(data, depth)] + dispatch_all(items, depth + 1),
            None => seq![(data, depth)],
        }
    } else {
        seq![(data, depth)]
    }
}

/// The records that dispatching each of `items` in turn dispatches.
pub open spec fn dispatch_all(items: Seq<Json>, depth: nat) -> Seq<(Json, nat)>
    decreases MAX_RECURSION_DEPTH + 1 - depth, items.len() + 1,
{
    if items.len() == 0 {
        Seq::empty()
    } else {
        dispatch_all(items.drop_last(), depth) + dispatch_order(items.last(), depth)
    }
}

/// What the first `k` of `items` dispatch is the beginning of what all of
/// them dispatch.
pub proof fn lemma_dispatch_all_prefix(items: Seq<Json>, k: int, depth: nat)
    requires
        0 <= k <= items.len(),
    ensures
        dispatch_all(items.take(k), depth).is_prefix_of(dispatch_all(items, depth)),
    decreases items.len(),
{
    if k == items.len() {
        assert(items.take(k) == items);
    } else {
        let front = items.drop_last();
        assert(items.take(k) == front.take(k));
        lemma_dispatch_all_prefix(front, k, depth);
    }
}

/// Whether dispatching `data` at `depth` stays within the recursion ceiling
/// and meets only "dynamic" records that hold nested records.
pub open spec fn within_limit(data: Json, depth: nat) -> bool
    decreases MAX_RECURSION_DEPTH + 1 - depth, 0nat,
{
    is_dynamic(data) ==> depth <= MAX_RECURSION_DEPTH && match nested_records(data) {
        Some(items) => all_within_limit(items, depth + 1),
        None => false,
    }
}

/// Whether each of `items` is within the limit at `depth`.
pub open spec fn all_within_limit(items: Seq<Json>, depth: nat) -> bool
    decreases MAX_RECURSION_DEPTH + 1 - depth, items.len() + 1,
{
    items.len() == 0 || (all_within_limit(items.drop_last(), depth) && within_limit(
        items.last(),
        depth,
    ))
}

/// The records of `items`, each at `depth`.
pub open spec fn at_depth(items: Seq<Json>, depth: nat) -> Seq<(Json, nat)> {
    items.map_values(|item: Json| (item, depth))
}

/// Records that are not "dynamic" are dispatched as they are, one by one.
pub proof fn lemma_dispatch_of_plain_records(items: Seq<Json>, depth: nat)
    requires
        forall|i: int| 0 <= i < items.len() ==> !is_dynamic(#[trigger] items[i]),
    ensures
        dispatch_all(items, depth) == at_depth(items, depth),
    decreases items.len(),
{
    if items.len() > 0 {
        let front = items.drop_last();
        assert forall|i: int| 0 <= i < front.len() implies !is_dynamic(#[trigger] front[i]) by {
            assert(front[i] == items[i]);
        }
        lemma_dispatch_of_plain_records(front, depth);
        assert(!is_dynamic(items.last()));
        assert(dispatch_order(items.last(), depth) == seq![(items.last(), depth)]);
        assert(at_depth(front, depth) + seq![(items.last(), depth)] =~= at_depth(items, depth));
    } else {
        assert(dispatch_all(items, depth) =~= at_depth(items, depth));
    }
}

/// A "dynamic" record whose `parameters` hold the JSON text of an array of
/// N records that are not "dynamic" themselves dispatches, after itself,
/// exactly these N records, in the order of the array, one level deeper.
pub proof fn lemma_dynamic_array_dispatch(data: Json, text: String, items: Vec<Json>, depth: nat)
    requires
        is_dynamic(data),
        depth <= MAX_RECURSION_DEPTH,
        data.spec_get("parameters"@) == Some(Json::String(text)),
        parsed_json(text@) == Some(Json::Array(items)),
        forall|i: int| 0 <= i < items@.len() ==> !is_dynamic(#[trigger] items@[i]),
    ensures
        nested_records(data) == Some(items@),
        dispatch_order(data, depth) == seq![(data, depth)] + at_depth(items@, depth + 1),
        dispatch_order(data, depth).len() == items@.len() + 1,
        within_limit(data, depth),
{
    lemma_dispatch_of_plain_records(items@, depth + 1);
    lemma_plain_records_within_limit(items@, depth + 1);
}

/// Records that are not "dynamic" are within the limit at every depth.
pub proof fn lemma_plain_records_within_limit(items: Seq<Json>, depth: nat)
    requires
        forall|i: int| 0 <= i < items.len() ==> !is_dynamic(#[trigger] items[i]),
    ensures
        all_within_limit(items, depth),
    decreases items.len(),
{
    if items.len() > 0 {
        let front = items.drop_last();
        assert forall|i: int| 0 <= i < front.len() implies !is_dynamic(#[trigger] front[i]) by {
            assert(front[i] == items[i]);
        }
        lemma_plain_records_within_limit(front, depth);
        assert(!is_dynamic(items.last()));
        assert(within_limit(items.last(), depth));
    }
}

/// A "dynamic" record beyond the recursion ceiling is not within the limit:
/// dispatching it, or a record whose expansion reaches it, cannot succeed.
pub proof fn lemma_beyond_the_ceiling(data: Json, depth: nat)
    requires
        is_dynamic(data),
        depth > MAX_RECURSION_DEPTH,
    ensures
        !within_limit(data, depth),
{
}

/// Whether `e` is the error that dispatching `record` at `depth` gives where
/// the record itself fails.
///
/// A "dynamic" record fails beyond the recursion ceiling, or for want of
/// nested records. Every other record fails where the engine fails, or where
/// it names a component that is not registered.
pub open spec fn is_own_failure(e: Error, record: Json, depth: nat, registry: AllTemplates) -> bool {
    if is_dynamic(record) {
        if depth > MAX_RECURSION_DEPTH {
            e.kind == ErrorKind::RecursionLimit && e.message@ == recursion_limit_message()
        } else {
            &&& nested_records(record) is None
            &&& e.kind == ErrorKind::InvalidDynamic
            &&& e.message@ == invalid_dynamic_message()
        }
    } else {
        ||| e.kind == ErrorKind::Render
        ||| match component_of(record) {
            Some(name) => {
                &&& registry.component(name) is None
                &&& e.kind == ErrorKind::ComponentNotFound
                &&& e.message@ == not_found_message(name)
            },
            None => false,
        }
    }
}

/// Expanding records that are all "dynamic" and all hold nested records can
/// fail for one reason only: the recursion ceiling. Where a dispatch that
/// went through such records failed at its last record, the error is the
/// recursion-limit error, and that record lay beyond the ceiling.
pub proof fn lemma_only_the_ceiling_fails(
    order: Seq<(Json, nat)>,
    dispatched: Seq<(Json, nat)>,
    e: Error,
    registry: AllTemplates,
)
    requires
        dispatched.len() > 0,
        dispatched.is_prefix_of(order),
        forall|i: int|
            0 <= i < order.len() ==> is_dynamic((#[trigger] order[i]).0) && nested_records(
                order[i].0,
            ) is Some,
        is_own_failure(e, dispatched.last().0, dispatched.last().1, registry),
    ensures
        e.kind == ErrorKind::RecursionLimit,
        e.message@ == recursion_limit_message(),
        dispatched.last().1 > MAX_RECURSION_DEPTH,
{
    assert(dispatched.last() == order[dispatched.len() - 1]);
}

/// The beginning of a beginning of a sequence is a beginning of it.
pub proof fn lemma_prefix_transitive<A>(a: Seq<A>, b: Seq<A>, c: Seq<A>)
    requires
        a.is_prefix_of(b),
        b.is_prefix_of(c),
    ensures
        a.is_prefix_of(c),
{
    assert forall|i: int| 0 <= i < a.len() implies a[i] == c[i] by {
        assert(a[i] == b[i]);
    }
}

/// The message of the error for "dynamic" records that nest too deep.
pub open spec fn recursion_limit_message() -> Seq<char> {
    "Maximum recursion depth exceeded in the dynamic component."@
}

/// The message of the error for a "dynamic" record without nested records.
pub open spec fn invalid_dynamic_message() -> Seq<char> {
    "The dynamic component requires a parameter called 'parameters' that is a JSON object, \
an array of objects, or a string that holds the JSON text of one"@
}

/// The error for a "dynamic" record without nested records.
fn invalid_dynamic() -> (r: Error)
    ensures
        r.kind == ErrorKind::InvalidDynamic,
        r.message@ == invalid_dynamic_message(),
        r.causes@.len() == 0,
{
    Error::new(
        ErrorKind::InvalidDynamic,
        "The dynamic component requires a parameter called 'parameters' that is a JSON object, \
an array of objects, or a string that holds the JSON text of one",
    )
}

/// Whether `after` and `r` are what dispatching the record `data` makes of
/// the page `before`.
///
/// The record is logged as dispatched at the page's depth. A "dynamic"
/// record beyond the recursion ceiling, or without nested records, fails and
/// leaves the page as it was. Every other "dynamic" record is expanded: on
/// success the page went, one level deeper, through a run of states in which
/// each nested record was dispatched in its turn, as a record of its own. A
/// record that names another component opens it; every other record is a
/// row. Dispatching stops at the first record that fails, with the error of
/// that record.
pub open spec fn is_row_handled(
    before: RenderContext,
    data: Json,
    after: RenderContext,
    r: Result<(), Error>,
) -> bool
    decreases MAX_RECURSION_DEPTH + 1 - before.depth(), 1nat,
{
    let depth = before.depth();
    &&& after.advances(before)
    &&& after.reported() == before.reported()
    &&& before.dispatched().push((data, depth)).is_prefix_of(after.dispatched())
    &&& after.dispatched().is_prefix_of(before.dispatched() + dispatch_order(data, depth))
    &&& r is Ok ==> after.dispatched() == before.dispatched() + dispatch_order(data, depth)
    &&& r is Ok ==> within_limit(data, depth)
    &&& r matches Err(e) ==> is_render_failure(e.kind) && after.fails_at_last(e)
    &&& if is_dynamic(data) {
        if depth > MAX_RECURSION_DEPTH {
            &&& r is Err
            &&& r->Err_0.kind == ErrorKind::RecursionLimit
            &&& r->Err_0.message@ == recursion_limit_message()
            &&& after.same_page(before)
        } else {
            match nested_records(data) {
                None => {
                    &&& r is Err
                    &&& r->Err_0.kind == ErrorKind::InvalidDynamic
                    &&& r->Err_0.message@ == invalid_dynamic_message()
                    &&& after.same_page(before)
                },
                Some(items) => {
                    &&& r is Ok ==> exists|states: Seq<RenderContext>|
                        (#[trigger] states.len()) == items.len() + 1 && is_run_of_rows(
                            states,
                            before.entered(data),
                            items,
                            depth + 1,
                            after.deeper(),
                        )
                    &&& items.len() == 0 ==> r is Ok && after.same_page(before)
                },
            }
        }
    } else {
        match opened_by(data, before.current().spec_name()) {
            Some(name) => {
                &&& after.is_opened(before, name, data, r is Ok)
                &&& before.opens_component_quietly(name) ==> r is Ok && after.output()
                    == before.output()
                &&& before.registry().component(name) is None && before.current().ends_quietly()
                    ==> r is Err && r->Err_0.kind == ErrorKind::ComponentNotFound
            },
            None => {
                &&& after.is_row_rendered(before, data, r is Ok)
                &&& before.takes_rows_quietly() ==> r is Ok && after.output() == before.output()
            },
        }
    }
}

/// Whether `states` is a run of page states from `before` to `after` in
/// which the records `items` were dispatched one after another at `depth`,
/// each without failure: the first state is `before`, the last is `after`,
/// and each state follows the one before it by the dispatch of the next
/// record. Without records, `after` is `before`.
pub open spec fn is_run_of_rows(
    states: Seq<RenderContext>,
    before: RenderContext,
    items: Seq<Json>,
    depth: nat,
    after: RenderContext,
) -> bool
    decreases MAX_RECURSION_DEPTH + 1 - depth, 2nat,
{
    &&& states.len() == items.len() + 1
    &&& states[0] == before
    &&& states.last() == after
    &&& forall|i: int|
        0 <= i < items.len() ==> (#[trigger] states[i]).depth() == depth && is_row_handled(
            states[i],
            items[i],
            states[i + 1],
            Ok(()),
        )
}

/// Looks a component up and makes a renderer for it.
fn create_renderer<'a>(component: &str, templates: &'a AllTemplates) -> (r: Result<
    SplitTemplateRenderer<'a>,
    Error,
>)
    ensures
        match r {
            Ok(renderer) => {
                &&& templates.component(component@) == Some(renderer.template())
                &&& renderer.engine() == templates.engine()
                &&& !renderer.is_open()
                &&& renderer.row_count() == 0
                &&& renderer.calls().len() == 0
            },
            Err(e) => {
                &&& templates.component(component@) is None
                &&& e.kind == ErrorKind::ComponentNotFound
                &&& e.message@ == not_found_message(component@)
                &&& e.causes@.len() == 0
            },
        },
{
    match templates.get_template(component) {
        Ok(split_template) => {
            let r = SplitTemplateRenderer::new(split_template, templates.engine_ref());
            Ok(r)
        },
        Err(e) => Err(e),
    }
}

/// One call of the template engine for a page: for its shell, or for the
/// component given by its template.
pub enum PageCall {
    Shell(RenderCall),
    Component(SplitTemplate, RenderCall),
}

/// Whether starting a component cannot fail: nothing stands before its rows.
pub open spec fn starts_quietly(template: SplitTemplate) -> bool {
    template_elements(template.before_list).len() == 0
}

/// Whether nothing of a component can fail: all its fragments are empty.
pub open spec fn is_quiet(template: SplitTemplate) -> bool {
    &&& template_elements(template.before_list).len() == 0
    &&& template_elements(template.list_content).len() == 0
    &&& template_elements(template.after_list).len() == 0
}

/// The page data of the shell, given the first body record: the record
/// itself where it is the shell's configuration, else nothing.
pub open spec fn shell_data(initial_row: Json) -> Json {
    if component_of(initial_row) == Some("shell"@) {
        initial_row
    } else {
        Json::Null
    }
}

/// The page data of the first component, given the first body record: the
/// record itself unless it is the shell's configuration.
pub open spec fn first_page_data(initial_row: Json) -> Json {
    if component_of(initial_row) == Some("shell"@) {
        Json::Null
    } else {
        initial_row
    }
}

/// Whether opening the body with `initial_row` cannot fail: the shell and
/// the first component are registered, and nothing stands before their rows.
pub open spec fn opens_quietly(registry: AllTemplates, initial_row: Json) -> bool {
    match (
        registry.component("shell"@),
        registry.component(initial_component(initial_row)),
    ) {
        (Some(shell), Some(first)) => starts_quietly(shell) && starts_quietly(first),
        _ => false,
    }
}

/// Whether `e` is the error that opening the body with `initial_row` gives.
///
/// Without a shell the body cannot be opened, nor without the first
/// component; the error then tells which one is missing. Every other failure
/// is one of the engine, while it renders what stands before the rows of the
/// shell or of the first component.
pub open spec fn is_opening_failure(e: Error, registry: AllTemplates, initial_row: Json) -> bool {
    let name = initial_component(initial_row);
    match registry.component("shell"@) {
        None => {
            &&& e.kind == ErrorKind::ComponentNotFound
            &&& e.message@ == missing_shell_message()
            &&& e.cause_texts() == seq![not_found_message("shell"@)]
        },
        Some(shell) => match registry.component(name) {
            None => {
                ||| e.kind == ErrorKind::Render && !starts_quietly(shell)
                ||| {
                    &&& e.kind == ErrorKind::ComponentNotFound
                    &&& e.message@ == missing_component_message(name)
                    &&& e.cause_texts() == seq![not_found_message(name)]
                }
            },
            Some(first) => e.kind == ErrorKind::Render && !(starts_quietly(shell)
                && starts_quietly(first)),
        },
    }
}

/// Whether `e` is an error that showing an error in a page gives: a failure
/// of the engine, or the want of an "error" component.
pub open spec fn is_showing_failure(e: Error, registry: AllTemplates) -> bool {
    ||| e.kind == ErrorKind::Render
    ||| {
        &&& e.kind == ErrorKind::ComponentNotFound
        &&& registry.component("error"@) is None
        &&& e.message@ == not_found_message("error"@)
    }
}

/// Whether showing an error as the first thing of a body cannot fail: the
/// body opens quietly with the default component, which also ends quietly,
/// the shell has no row fragment, and the "error" component is registered
/// and quiet.
pub open spec fn shows_first_error_quietly(registry: AllTemplates) -> bool {
    match (
        registry.component("shell"@),
        registry.component("default"@),
        registry.component("error"@),
    ) {
        (Some(shell), Some(first), Some(error)) => {
            &&& starts_quietly(shell)
            &&& template_elements(shell.list_content).len() == 0
            &&& starts_quietly(first)
            &&& template_elements(first.after_list).len() == 0
            &&& is_quiet(error)
        },
        _ => false,
    }
}

/// The state of a page whose headers are fixed and whose body is being
/// rendered: the shell around the page and the component that is open.
pub struct RenderContext<'a> {
    templates: &'a AllTemplates,
    /// What was rendered and not yet taken away.
    pub writer: Vec<u8>,
    current_component: SplitTemplateRenderer<'a>,
    shell_renderer: SplitTemplateRenderer<'a>,
    recursion_depth: usize,
    current_statement: usize,
    dispatched: Ghost<Seq<(Json, nat)>>,
    reported: Ghost<Seq<(Error, nat)>>,
    rendered: Ghost<Seq<PageCall>>,
}

/// The message of the error for a page without a shell.
pub open spec fn missing_shell_message() -> Seq<char> {
    "The shell component should always exist"@
}

/// The message of the error for a first component that cannot be opened.
pub open spec fn missing_component_message(name: Seq<char>) -> Seq<char> {
    "Unable to open the rendering context because opening the "@ + name
        + " component failed"@
}

/// The component that a page starts with, given its first body record: the
/// one the record names, or "default" where it names none or is itself the
/// shell's configuration.
pub open spec fn initial_component(initial_row: Json) -> Seq<char> {
    match component_of(initial_row) {
        Some(name) => if name == "shell"@ {
            "default"@
        } else {
            name
        },
        None => "default"@,
    }
}

impl<'a> RenderContext<'a> {
    /// The registry that components are looked up in.
    pub closed spec fn registry(self) -> AllTemplates {
        *self.templates
    }

    /// The bytes in `writer`.
    pub closed spec fn output(self) -> Seq<u8> {
        self.writer@
    }

    /// The component that is currently open.
    pub closed spec fn current(self) -> SplitTemplateRenderer<'a> {
        self.current_component
    }

    /// The shell around the page.
    pub closed spec fn shell(self) -> SplitTemplateRenderer<'a> {
        self.shell_renderer
    }

    /// How many "dynamic" records enclose the record that is being handled.
    pub closed spec fn depth(self) -> nat {
        self.recursion_depth as nat
    }

    /// The same page one level deeper: as it is while a record nested in a
    /// "dynamic" record is handled.
    pub closed spec fn deeper(self) -> Self {
        RenderContext { recursion_depth: (self.recursion_depth + 1) as usize, ..self }
    }

    /// The page as it is when the records nested in the "dynamic" record
    /// `data` begin to be dispatched: `data` is logged as dispatched, and
    /// the page is one level deeper.
    pub closed spec fn entered(self, data: Json) -> Self {
        RenderContext {
            recursion_depth: (self.recursion_depth + 1) as usize,
            dispatched: Ghost(self.dispatched@.push((data, self.recursion_depth as nat))),
            ..self
        }
    }

    /// A page that a "dynamic" record was entered on differs from the page
    /// one level deeper in the list of dispatched records only.
    pub proof fn lemma_entered(self, data: Json)
        requires
            self.depth() <= MAX_RECURSION_DEPTH,
        ensures
            self.entered(data).depth() == self.depth() + 1,
            self.entered(data).dispatched() == self.dispatched().push((data, self.depth())),
            self.entered(data).registry() == self.registry(),
            self.entered(data).output() == self.output(),
            self.entered(data).current() == self.current(),
            self.entered(data).shell() == self.shell(),
            self.entered(data).statement() == self.statement(),
            self.entered(data).reported() == self.reported(),
            self.entered(data).rendered() == self.rendered(),
    {
    }

    /// A page one level deeper differs in its depth only.
    pub proof fn lemma_deeper(self)
        requires
            self.depth() <= MAX_RECURSION_DEPTH,
        ensures
            self.deeper().depth() == self.depth() + 1,
            self.deeper().registry() == self.registry(),
            self.deeper().output() == self.output(),
            self.deeper().current() == self.current(),
            self.deeper().shell() == self.shell(),
            self.deeper().statement() == self.statement(),
            self.deeper().dispatched() == self.dispatched(),
            self.deeper().reported() == self.reported(),
            self.deeper().rendered() == self.rendered(),
    {
    }

    /// The number of the statement whose results are being handled, from one.
    pub closed spec fn statement(self) -> nat {
        self.current_statement as nat
    }

    /// Every record that was dispatched so far, each with the depth at which
    /// it was dispatched, in the order of dispatch.
    pub closed spec fn dispatched(self) -> Seq<(Json, nat)> {
        self.dispatched@
    }

    /// Whether `e` is the own failure of the record that was dispatched last.
    pub open spec fn fails_at_last(self, e: Error) -> bool {
        &&& self.dispatched().len() > 0
        &&& is_own_failure(
            e,
            self.dispatched().last().0,
            self.dispatched().last().1,
            self.registry(),
        )
    }

    /// Whether `self` is the body of a page that was just opened with
    /// `initial_row`, on top of what `written` holds.
    ///
    /// The shell and the first component are started, each with its page
    /// data; nothing else was rendered, dispatched or reported; the first
    /// statement is being handled.
    pub open spec fn is_new_page(
        self,
        registry: AllTemplates,
        written: Seq<u8>,
        initial_row: Json,
    ) -> bool {
        &&& self.registry() == registry
        &&& written.is_prefix_of(self.output())
        &&& opens_quietly(registry, initial_row) ==> self.output() == written
        &&& registry.component("shell"@) == Some(self.shell().template())
        &&& registry.component(initial_component(initial_row)) == Some(self.current().template())
        &&& self.shell().is_started(self.shell().template(), shell_data(initial_row))
        &&& self.current().is_started(self.current().template(), first_page_data(initial_row))
        &&& self.rendered() == seq![
            PageCall::Shell(RenderCall::Start(shell_data(initial_row))),
            PageCall::Component(
                self.current().template(),
                RenderCall::Start(first_page_data(initial_row)),
            ),
        ]
        &&& self.depth() == 0
        &&& self.statement() == 1
        &&& self.dispatched().len() == 0
        &&& self.reported().len() == 0
    }

    /// Opens the body of a page with its first record.
    ///
    /// A record whose control key names the shell is the shell's page data;
    /// the page then starts with the default component. Every other record
    /// leaves the shell without page data, names the first component with its
    /// control key ("default" where it has none), and is that component's
    /// page data.
    pub fn new(templates: &'a AllTemplates, writer: Vec<u8>, initial_row: Json) -> (r: Result<
        RenderContext<'a>,
        Error,
    >)
        ensures
            match r {
                Ok(ctx) => {
                    &&& ctx.registry() == *templates
                    &&& writer@.is_prefix_of(ctx.output())
                    &&& templates.component("shell"@) == Some(ctx.shell().template())
                    &&& templates.component(initial_component(initial_row)) == Some(
                        ctx.current().template(),
                    )
                    &&& ctx.shell().is_started(ctx.shell().template(), shell_data(initial_row))
                    &&& ctx.current().is_started(
                        ctx.current().template(),
                        first_page_data(initial_row),
                    )
                    &&& ctx.rendered() == seq![
                        PageCall::Shell(RenderCall::Start(shell_data(initial_row))),
                        PageCall::Component(
                            ctx.current().template(),
                            RenderCall::Start(first_page_data(initial_row)),
                        ),
                    ]
                    &&& ctx.depth() == 0
                    &&& ctx.statement() == 1
                    &&& ctx.dispatched().len() == 0
                    &&& ctx.reported().len() == 0
                },
                Err(e) => {
                    &&& e.kind == ErrorKind::ComponentNotFound || e.kind == ErrorKind::Render
                    &&& e.kind == ErrorKind::ComponentNotFound ==> {
                        ||| templates.component("shell"@) is None
                        ||| templates.component(initial_component(initial_row)) is None
                    }
                },
            },
            templates.component("shell"@) is None ==> {
                &&& r is Err
                &&& r->Err_0.kind == ErrorKind::ComponentNotFound
                &&& r->Err_0.message@ == missing_shell_message()
                &&& r->Err_0.cause_texts() == seq![not_found_message("shell"@)]
            },
            templates.component(initial_component(initial_row)) is None ==> r is Err,
            opens_quietly(*templates, initial_row) ==> r is Ok && r->Ok_0.output() == writer@,
            r matches Ok(ctx) ==> ctx.is_new_page(*templates, writer@, initial_row),
            r matches Err(e) ==> is_opening_failure(e, *templates, initial_row),
            templates.component("shell"@) is Some && r is Err && r->Err_0.kind
                == ErrorKind::ComponentNotFound ==> {
                &&& r->Err_0.message@ == missing_component_message(initial_component(initial_row))
                &&& r->Err_0.cause_texts() == seq![
                    not_found_message(initial_component(initial_row)),
                ]
            },
    {
        let mut writer = writer;
        let mut initial_row = initial_row;
        let mut shell_renderer = match create_renderer("shell", templates) {
            Ok(renderer) => renderer,
            Err(e) => {
                let e = e.context("The shell component should always exist");
                assert(e.cause_texts() =~= seq![not_found_message("shell"@)]);
                return Err(e);
            },
        };
        let is_shell = match get_object_str(&initial_row, "component") {
            Some(name) => str_eq(name, "shell"),
            None => false,
        };
        let shell_properties = if is_shell {
            initial_row.take()
        } else {
            Json::Null
        };
        match shell_renderer.render_start(&mut writer, &shell_properties) {
            Ok(()) => {},
            Err(e) => {
                return Err(e);
            },
        }
        let current_component = match get_object_str(&initial_row, "component") {
            Some(name) => create_renderer(name, templates),
            None => create_renderer("default", templates),
        };
        let mut current_component = match current_component {
            Ok(renderer) => renderer,
            Err(e) => {
                let name = match get_object_str(&initial_row, "component") {
                    Some(name) => name,
                    None => "default",
                };
                let message = String::from_str(
                    "Unable to open the rendering context because opening the ",
                ).concat(name).concat(" component failed");
                let e = e.context(message.as_str());
                assert(e.cause_texts() =~= seq![not_found_message(name@)]);
                return Err(e);
            },
        };
        match current_component.render_start(&mut writer, &initial_row) {
            Ok(()) => {},
            Err(e) => {
                return Err(e);
            },
        }
        let ghost rendered = seq![
            PageCall::Shell(RenderCall::Start(shell_properties)),
            PageCall::Component(current_component.template(), RenderCall::Start(initial_row)),
        ];
        proof {
            assert(shell_renderer.calls() =~= seq![RenderCall::Start(shell_properties)]);
            assert(current_component.calls() =~= seq![RenderCall::Start(initial_row)]);
        }
        Ok(
            RenderContext {
                templates,
                writer,
                current_component,
                shell_renderer,
                recursion_depth: 0,
                current_statement: 1,
                dispatched: Ghost(Seq::empty()),
                reported: Ghost(Seq::empty()),
                rendered: Ghost(rendered),
            },
        )
    }

    /// Every call of the template engine that was made for the page, in order.
    pub closed spec fn rendered(self) -> Seq<PageCall> {
        self.rendered@
    }

    /// The engine call that ending the open component makes.
    pub open spec fn closing(self) -> Seq<PageCall> {
        if self.current().is_open() {
            seq![PageCall::Component(self.current().template(), RenderCall::End)]
        } else {
            Seq::empty()
        }
    }

    /// The engine call that ending the shell makes.
    pub open spec fn shell_closing(self) -> Seq<PageCall> {
        if self.shell().is_open() {
            seq![PageCall::Shell(RenderCall::End)]
        } else {
            Seq::empty()
        }
    }

    /// The engine call that a row makes for the open component.
    pub open spec fn component_row(self, data: Json) -> Seq<PageCall> {
        if self.current().is_open() {
            seq![
                PageCall::Component(
                    self.current().template(),
                    RenderCall::Item(data, self.current().row_count()),
                ),
            ]
        } else {
            Seq::empty()
        }
    }

    /// The engine call that a row makes for the shell: a row without data.
    pub open spec fn shell_row(self) -> Seq<PageCall> {
        if self.shell().is_open() {
            seq![PageCall::Shell(RenderCall::Item(Json::Null, self.shell().row_count()))]
        } else {
            Seq::empty()
        }
    }

    /// The engine call that starts a component.
    pub open spec fn opening(template: SplitTemplate, data: Json) -> Seq<PageCall> {
        seq![PageCall::Component(template, RenderCall::Start(data))]
    }

    /// Every error whose record was handed to the "error" component, each
    /// with the number of the statement it was reported for, in order.
    pub closed spec fn reported(self) -> Seq<(Error, nat)> {
        self.reported@
    }

    /// What every step of the body leaves as it is, and how the output grows.
    pub open spec fn advances(self, before: Self) -> bool {
        &&& self.registry() == before.registry()
        &&& before.output().is_prefix_of(self.output())
        &&& self.depth() == before.depth()
        &&& self.statement() == before.statement()
        &&& self.shell().template() == before.shell().template()
        &&& before.rendered().is_prefix_of(self.rendered())
    }

    /// As `advances`, for a step that dispatches no record and reports no error.
    pub open spec fn follows(self, before: Self) -> bool {
        &&& self.advances(before)
        &&& self.dispatched() == before.dispatched()
        &&& self.reported() == before.reported()
    }

    /// Whether nothing but the list of dispatched records may differ.
    pub open spec fn same_page(self, before: Self) -> bool {
        &&& self.advances(before)
        &&& self.output() == before.output()
        &&& self.current() == before.current()
        &&& self.shell() == before.shell()
        &&& self.rendered() == before.rendered()
    }

    /// Ends the component that is open.
    fn close_component(&mut self) -> (r: Result<(), Error>)
        ensures
            final(self).follows(*old(self)),
            final(self).shell() == old(self).shell(),
            final(self).current().is_ended(old(self).current()),
            final(self).rendered() == old(self).rendered() + old(self).closing(),
            old(self).current().ends_quietly() ==> r is Ok && final(self).output() == old(self).output(),
            r matches Err(e) ==> e.kind == ErrorKind::Render && e.causes@.len() == 0,
    {
        proof {
            self.rendered@ = self.rendered@ + self.closing();
        }
        self.current_component.render_end(&mut self.writer)
    }

    /// Ends the shell.
    fn close_shell(&mut self) -> (r: Result<(), Error>)
        ensures
            final(self).follows(*old(self)),
            final(self).current() == old(self).current(),
            final(self).shell().is_ended(old(self).shell()),
            final(self).rendered() == old(self).rendered() + old(self).shell_closing(),
            old(self).shell().ends_quietly() ==> r is Ok && final(self).output() == old(self).output(),
            r matches Err(e) ==> e.kind == ErrorKind::Render && e.causes@.len() == 0,
    {
        proof {
            self.rendered@ = self.rendered@ + self.shell_closing();
        }
        self.shell_renderer.render_end(&mut self.writer)
    }

    /// Makes another component the current one and hands back the old one.
    fn set_current_component(&mut self, component: &str) -> (r: Result<
        SplitTemplateRenderer<'a>,
        Error,
    >)
        ensures
            final(self).follows(*old(self)),
            final(self).shell() == old(self).shell(),
            final(self).output() == old(self).output(),
            final(self).rendered() == old(self).rendered(),
            match r {
                Ok(previous) => {
                    &&& previous == old(self).current()
                    &&& old(self).registry().component(component@) == Some(
                        final(self).current().template(),
                    )
                    &&& !final(self).current().is_open()
                    &&& final(self).current().row_count() == 0
                    &&& final(self).current().calls().len() == 0
                },
                Err(e) => {
                    &&& old(self).registry().component(component@) is None
                    &&& e.kind == ErrorKind::ComponentNotFound
                    &&& e.message@ == not_found_message(component@)
                    &&& e.causes@.len() == 0
                    &&& final(self).current() == old(self).current()
                },
            },
    {
        match create_renderer(component, self.templates) {
            Ok(new_component) => {
                let mut previous = new_component;
                core::mem::swap(&mut self.current_component, &mut previous);
                Ok(previous)
            },
            Err(e) => Err(e),
        }
    }

    /// What opening the component `name` with `data` makes of the page
    /// `before`, given whether it succeeded.
    ///
    /// The open component is ended first. Then the named component is looked
    /// up and started with `data` as its page data. Where the step fails the
    /// page is left where the failure came: with the old component ended, or
    /// with the new one in its place, not started.
    pub open spec fn is_opened(self, before: Self, name: Seq<char>, data: Json, done: bool) -> bool {
        let ended = before.rendered() + before.closing();
        &&& self.shell() == before.shell()
        &&& ended.is_prefix_of(self.rendered())
        &&& match before.registry().component(name) {
            Some(template) => if done {
                &&& self.current().is_started(template, data)
                &&& self.rendered() == ended + Self::opening(template, data)
            } else {
                ||| {
                    &&& !before.current().ends_quietly()
                    &&& self.current().is_ended(before.current())
                    &&& self.rendered() == ended
                }
                ||| {
                    &&& !starts_quietly(template)
                    &&& self.current().template() == template
                    &&& !self.current().is_open()
                    &&& self.current().calls() == seq![RenderCall::Start(data)]
                    &&& self.rendered() == ended + Self::opening(template, data)
                }
            },
            None => {
                &&& !done
                &&& self.current().is_ended(before.current())
                &&& self.rendered() == ended
            },
        }
    }

    /// Whether opening a registered component from this page cannot fail.
    pub open spec fn opens_component_quietly(self, name: Seq<char>) -> bool {
        match self.registry().component(name) {
            Some(template) => self.current().ends_quietly() && starts_quietly(template),
            None => false,
        }
    }

    /// Ends the open component, opens another one and starts it with `data`
    /// as its page data. Hands back the component that was open.
    fn open_component_with_data(&mut self, component: &str, data: &Json) -> (r: Result<
        SplitTemplateRenderer<'a>,
        Error,
    >)
        ensures
            final(self).follows(*old(self)),
            final(self).is_opened(*old(self), component@, *data, r is Ok),
            r matches Ok(previous) ==> previous.is_ended(old(self).current()),
            r matches Err(e) ==> {
                &&& e.kind == ErrorKind::ComponentNotFound || e.kind == ErrorKind::Render
                &&& e.causes@.len() == 0
                &&& e.kind == ErrorKind::ComponentNotFound ==> {
                    &&& old(self).registry().component(component@) is None
                    &&& e.message@ == not_found_message(component@)
                }
                &&& old(self).registry().component(component@) is None && old(self).current().ends_quietly() ==> e.kind == ErrorKind::ComponentNotFound
            },
            old(self).opens_component_quietly(component@) ==> r is Ok && final(self).output()
                == old(self).output(),
    {
        let ghost ended = self.rendered@ + self.closing();
        match self.close_component() {
            Ok(()) => {},
            Err(e) => {
                return Err(e);
            },
        }
        let old_component = match self.set_current_component(component) {
            Ok(previous) => previous,
            Err(e) => {
                return Err(e);
            },
        };
        proof {
            self.rendered@ = self.rendered@ + Self::opening(
                self.current_component.template(),
                *data,
            );
        }
        let started = self.current_component.render_start(&mut self.writer, data);
        proof {
            assert(self.current().calls() =~= seq![RenderCall::Start(*data)]);
            assert(ended.is_prefix_of(self.rendered()));
        }
        match started {
            Ok(()) => Ok(old_component),
            Err(e) => Err(e),
        }
    }

    /// What a row makes of the page `before`, given whether it was rendered
    /// without failure.
    ///
    /// The open component renders the row, then the shell renders a row
    /// without data. A row that fails takes the local state of the one that
    /// failed with it, and the shell is not asked after a component that
    /// failed.
    pub open spec fn is_row_rendered(self, before: Self, data: Json, done: bool) -> bool {
        let first = before.rendered() + before.component_row(data);
        &&& self.current().template() == before.current().template()
        &&& self.current().calls() == before.current().calls() + before.current().item_calls(data)
        &&& first.is_prefix_of(self.rendered())
        &&& if done {
            &&& self.current().is_after_row(before.current(), data)
            &&& self.shell().is_after_row(before.shell(), Json::Null)
            &&& self.rendered() == first + before.shell_row()
        } else {
            ||| {
                &&& before.current().is_open()
                &&& !self.current().is_open()
                &&& self.current().row_count() == before.current().row_count()
                &&& self.shell() == before.shell()
                &&& self.rendered() == first
            }
            ||| {
                &&& self.current().is_after_row(before.current(), data)
                &&& before.shell().is_open()
                &&& !self.shell().is_open()
                &&& self.shell().calls() == before.shell().calls() + before.shell().item_calls(
                    Json::Null,
                )
                &&& self.rendered() == first + before.shell_row()
            }
        }
    }

    /// Whether a row cannot fail on this page.
    pub open spec fn takes_rows_quietly(self) -> bool {
        self.current().takes_rows_quietly() && self.shell().takes_rows_quietly()
    }

    /// Renders `data` as one more row of the open component, and lets the
    /// shell render a row without data after it.
    fn render_current_template_with_data(&mut self, data: &Json) -> (r: Result<(), Error>)
        ensures
            final(self).follows(*old(self)),
            final(self).is_row_rendered(*old(self), *data, r is Ok),
            r matches Err(e) ==> e.kind == ErrorKind::Render && e.causes@.len() == 0,
            old(self).takes_rows_quietly() ==> r is Ok && final(self).output() == old(self).output(),
    {
        let ghost first = self.rendered@ + self.component_row(*data);
        proof {
            self.rendered@ = first;
        }
        let row = self.current_component.render_item(&mut self.writer, data);
        proof {
            assert(self.current().calls() =~= old(self).current().calls() + old(self).current().item_calls(*data));
        }
        match row {
            Ok(()) => {},
            Err(e) => {
                return Err(e);
            },
        }
        proof {
            self.rendered@ = self.rendered@ + self.shell_row();
        }
        let shell_row = self.shell_renderer.render_item(&mut self.writer, &Json::Null);
        proof {
            assert(self.shell().calls() =~= old(self).shell().calls() + old(self).shell().item_calls(Json::Null));
            assert(first.is_prefix_of(self.rendered()));
        }
        shell_row
    }

    /// Dispatches each of the records that a nested value stands for, one
    /// level deeper than the record that holds them. Stops at the first that
    /// fails.
    fn render_nested(&mut self, nested: &Json) -> (r: Result<(), Error>)
        requires
            old(self).depth() <= MAX_RECURSION_DEPTH,
        ensures
            final(self).advances(*old(self)),
            final(self).reported() == old(self).reported(),
            match records_of(*nested) {
                Some(items) => {
                    &&& old(self).dispatched().is_prefix_of(final(self).dispatched())
                    &&& final(self).dispatched().is_prefix_of(
                        old(self).dispatched() + dispatch_all(items, old(self).depth() + 1),
                    )
                    &&& r is Ok ==> final(self).dispatched() == old(self).dispatched()
                        + dispatch_all(items, old(self).depth() + 1)
                    &&& r is Ok ==> all_within_limit(items, old(self).depth() + 1)
                    &&& r is Ok ==> exists|states: Seq<RenderContext>|
                        (#[trigger] states.len()) == items.len() + 1 && is_run_of_rows(
                            states,
                            old(self).deeper(),
                            items,
                            old(self).depth() + 1,
                            final(self).deeper(),
                        )
                    &&& items.len() == 0 ==> r is Ok && final(self).same_page(*old(self))
                    &&& r matches Err(e) ==> final(self).dispatched().len() > old(self).dispatched().len() && final(self).fails_at_last(e)
                },
                None => {
                    &&& r is Err
                    &&& r->Err_0.kind == ErrorKind::InvalidDynamic
                    &&& r->Err_0.message@ == invalid_dynamic_message()
                    &&& final(self).same_page(*old(self))
                    &&& final(self).dispatched() == old(self).dispatched()
                },
            },
            r matches Err(e) ==> is_render_failure(e.kind),
        decreases MAX_RECURSION_DEPTH + 1 - old(self).depth(), 0nat,
    {
        match nested {
            Json::Array(items) => {
                let ghost start = self.dispatched@;
                let ghost depth = self.depth() + 1;
                let ghost mut states: Seq<RenderContext> = seq![self.deeper()];
                let mut i: usize = 0;
                while i < items.len()
                    invariant
                        i <= items.len(),
                        self.advances(*old(self)),
                        self.reported() == old(self).reported(),
                        i == 0 ==> self.same_page(*old(self)),
                        old(self).depth() <= MAX_RECURSION_DEPTH,
                        depth == old(self).depth() + 1,
                        records_of(*nested) == Some(items@),
                        start == old(self).dispatched(),
                        self.dispatched() == start + dispatch_all(items@.take(i as int), depth),
                        all_within_limit(items@.take(i as int), depth),
                        states.len() == i + 1,
                        states[0] == old(self).deeper(),
                        states.last() == self.deeper(),
                        forall|j: int|
                            0 <= j < i ==> (#[trigger] states[j]).depth() == depth
                                && is_row_handled(states[j], items@[j], states[j + 1], Ok(())),
                    decreases items.len() - i,
                {
                    let ghost before = self.dispatched();
                    let ghost written = self.output();
                    let ghost drawn = self.rendered();
                    self.recursion_depth += 1;
                    let ghost inner = *self;
                    assert(inner == states.last());
                    let res = self.handle_row(&items[i]);
                    let ghost handled = *self;
                    self.recursion_depth -= 1;
                    proof {
                        assert(self.deeper() == handled);
                        lemma_prefix_transitive(old(self).output(), written, self.output());
                        lemma_prefix_transitive(old(self).rendered(), drawn, self.rendered());
                        let done = items@.take(i as int);
                        let next = items@.take(i + 1);
                        assert(next.drop_last() == done);
                        assert(next.last() == items@[i as int]);
                        assert(dispatch_all(next, depth) == dispatch_all(done, depth)
                            + dispatch_order(items@[i as int], depth));
                        lemma_dispatch_all_prefix(items@, i + 1, depth);
                        assert(before + dispatch_order(items@[i as int], depth) == start
                            + dispatch_all(next, depth));
                        assert((start + dispatch_all(next, depth)).is_prefix_of(
                            start + dispatch_all(items@, depth),
                        ));
                    }
                    match res {
                        Ok(()) => {
                            proof {
                                let longer = states.push(handled);
                                assert forall|j: int| 0 <= j < i + 1 implies (
                                #[trigger] longer[j]).depth() == depth && is_row_handled(
                                    longer[j],
                                    items@[j],
                                    longer[j + 1],
                                    Ok(()),
                                ) by {
                                    if j < i {
                                        assert(states[j].depth() == depth);
                                        assert(longer[j] == states[j] && longer[j + 1] == states[j
                                            + 1]);
                                    } else {
                                        assert(longer[j] == inner && longer[j + 1] == handled);
                                        assert(inner.depth() == depth);
                                        assert(is_row_handled(inner, items@[j], handled, Ok(())));
                                    }
                                }
                                states = longer;
                            }
                        },
                        Err(e) => {
                            proof {
                                lemma_prefix_transitive(
                                    start,
                                    before.push((items@[i as int], depth)),
                                    self.dispatched(),
                                );
                                lemma_prefix_transitive(
                                    self.dispatched(),
                                    start + dispatch_all(items@.take(i + 1), depth),
                                    start + dispatch_all(items@, depth),
                                );
                            }
                            return Err(e);
                        },
                    }
                    i += 1;
                }
                proof {
                    assert(items@.take(i as int) == items@);
                    assert(states.len() == items@.len() + 1);
                    assert(states[0] == old(self).deeper());
                    assert(states.last() == self.deeper());
                    assert(is_run_of_rows(
                        states,
                        old(self).deeper(),
                        items@,
                        (old(self).depth() + 1) as nat,
                        self.deeper(),
                    ));
                }
                Ok(())
            },
            Json::Object(_) => {
                let ghost first = self.deeper();
                self.recursion_depth += 1;
                let ghost inner = *self;
                assert(inner == first);
                let res = self.handle_row(nested);
                let ghost handled = *self;
                self.recursion_depth -= 1;
                proof {
                    assert(self.deeper() == handled);
                    let items = seq![*nested];
                    let depth = old(self).depth() + 1;
                    assert(items.drop_last().len() == 0);
                    assert(items.last() == *nested);
                    assert(dispatch_all(items, depth) == dispatch_all(items.drop_last(), depth)
                        + dispatch_order(*nested, depth));
                    assert(all_within_limit(items.drop_last(), depth));
                    assert(dispatch_all(items, depth) == dispatch_order(*nested, depth));
                    if res is Ok {
                        let states = seq![first, handled];
                        assert(states[0] == inner && states[1] == handled);
                        assert(inner.depth() == depth);
                        assert(items[0] == *nested);
                        assert(is_row_handled(inner, *nested, handled, Ok(())));
                        assert(is_run_of_rows(
                            states,
                            old(self).deeper(),
                            items,
                            (old(self).depth() + 1) as nat,
                            self.deeper(),
                        ));
                    }
                }
                res
            },
            _ => Err(invalid_dynamic()),
        }
    }

    /// Expands a "dynamic" record: dispatches the records nested in it.
    fn render_dynamic(&mut self, data: &Json) -> (r: Result<(), Error>)
        ensures
            final(self).advances(*old(self)),
            final(self).reported() == old(self).reported(),
            old(self).depth() > MAX_RECURSION_DEPTH ==> {
                &&& r is Err
                &&& r->Err_0.kind == ErrorKind::RecursionLimit
                &&& r->Err_0.message@ == recursion_limit_message()
                &&& final(self).same_page(*old(self))
                &&& final(self).dispatched() == old(self).dispatched()
            },
            old(self).depth() <= MAX_RECURSION_DEPTH ==> match nested_records(*data) {
                Some(items) => {
                    &&& old(self).dispatched().is_prefix_of(final(self).dispatched())
                    &&& final(self).dispatched().is_prefix_of(
                        old(self).dispatched() + dispatch_all(items, old(self).depth() + 1),
                    )
                    &&& r is Ok ==> final(self).dispatched() == old(self).dispatched()
                        + dispatch_all(items, old(self).depth() + 1)
                    &&& r is Ok ==> all_within_limit(items, old(self).depth() + 1)
                    &&& r is Ok ==> exists|states: Seq<RenderContext>|
                        (#[trigger] states.len()) == items.len() + 1 && is_run_of_rows(
                            states,
                            old(self).deeper(),
                            items,
                            old(self).depth() + 1,
                            final(self).deeper(),
                        )
                    &&& items.len() == 0 ==> r is Ok && final(self).same_page(*old(self))
                    &&& r matches Err(e) ==> final(self).dispatched().len() > old(self).dispatched().len() && final(self).fails_at_last(e)
                },
                None => {
                    &&& r is Err
                    &&& r->Err_0.kind == ErrorKind::InvalidDynamic
                    &&& r->Err_0.message@ == invalid_dynamic_message()
                    &&& final(self).same_page(*old(self))
                    &&& final(self).dispatched() == old(self).dispatched()
                },
            },
            r matches Err(e) ==> is_render_failure(e.kind),
        decreases MAX_RECURSION_DEPTH + 1 - old(self).depth(), 1nat,
    {
        if self.recursion_depth > MAX_RECURSION_DEPTH {
            return Err(
                Error::new(
                    ErrorKind::RecursionLimit,
                    "Maximum recursion depth exceeded in the dynamic component.",
                ),
            );
        }
        match data.get("parameters") {
            Some(Json::String(text)) => match Json::parse(text.as_str()) {
                Some(parsed) => self.render_nested(&parsed),
                None => Err(invalid_dynamic()),
            },
            Some(other) => self.render_nested(other),
            None => Err(invalid_dynamic()),
        }
    }

    /// Dispatches one record of the body.
    ///
    /// A "dynamic" record is expanded: the records nested in it are
    /// dispatched in their order, each as this record would be, one level
    /// deeper. A record that names a component other than the open one ends
    /// the open component, opens the named one and is its page data. Every
    /// other record is one more row of the open component, after which the
    /// shell renders a row of its own.
    ///
    /// Dispatching stops at the first record that fails: that record is the
    /// last one dispatched, and the error is its own.
    pub fn handle_row(&mut self, data: &Json) -> (r: Result<(), Error>)
        ensures
            is_row_handled(*old(self), *data, *final(self), r),
        decreases MAX_RECURSION_DEPTH + 1 - old(self).depth(), 2nat,
    {
        proof {
            self.dispatched@ = self.dispatched@.push((*data, self.depth()));
        }
        let ghost logged = self.dispatched@;
        assert(logged == old(self).dispatched() + seq![(*data, old(self).depth())]);
        match get_object_str(data, "component") {
            Some(name) => {
                if str_eq(name, "dynamic") {
                    let ghost inner = *self;
                    assert(inner.deeper() == old(self).entered(*data));
                    let res = self.render_dynamic(data);
                    proof {
                        if old(self).depth() <= MAX_RECURSION_DEPTH {
                            match nested_records(*data) {
                                Some(items) => {
                                    let tail = dispatch_all(items, old(self).depth() + 1);
                                    assert(logged + tail == old(self).dispatched() + (seq![
                                        (*data, old(self).depth()),
                                    ] + tail));
                                },
                                None => {},
                            }
                        }
                    }
                    res
                } else if !str_eq(name, self.current_component.name()) {
                    match self.open_component_with_data(name, data) {
                        Ok(_) => Ok(()),
                        Err(e) => Err(e),
                    }
                } else {
                    self.render_current_template_with_data(data)
                }
            },
            None => self.render_current_template_with_data(data),
        }
    }

    /// Notes that the results of one statement have ended: the next item
    /// belongs to the next statement.
    pub fn finish_query(&mut self) -> (r: Result<(), Error>)
        ensures
            r is Ok,
            final(self).registry() == old(self).registry(),
            final(self).output() == old(self).output(),
            final(self).current() == old(self).current(),
            final(self).shell() == old(self).shell(),
            final(self).depth() == old(self).depth(),
            final(self).dispatched() == old(self).dispatched(),
            final(self).reported() == old(self).reported(),
            final(self).rendered() == old(self).rendered(),
            final(self).statement() == if old(self).statement() < usize::MAX {
                old(self).statement() + 1
            } else {
                old(self).statement()
            },
    {
        if self.current_statement < usize::MAX {
            self.current_statement += 1;
        }
        Ok(())
    }

    /// What holds after an attempt to show `error` in the page `before`,
    /// whether it succeeded or not.
    ///
    /// The component that was open was ended, before anything else was
    /// rendered. It is the current component again, unless the attempt failed
    /// while the "error" component was open: then that one is left as the
    /// current component. The error counts as reported once its record was
    /// handed to the "error" component, which takes that the registry holds
    /// one. A shell without local state stays without it.
    pub open spec fn tried_to_show(self, before: Self, error: Error) -> bool {
        let shown = before.reported().push((error, before.statement()));
        &&& (before.rendered() + before.closing()).is_prefix_of(self.rendered())
        &&& self.current().is_ended(before.current()) || self.current().is_error_attempt(
            before.registry(),
        )
        &&& self.reported() == before.reported() || self.reported() == shown
        &&& !before.shell().is_open() ==> !self.shell().is_open()
        &&& before.registry().component("error"@) is None ==> {
            &&& self.current().is_ended(before.current())
            &&& self.reported() == before.reported()
            &&& self.shell() == before.shell()
            &&& self.rendered() == before.rendered() + before.closing()
        }
    }

    /// Whether showing an error on this page cannot fail: the open component
    /// ends quietly, the shell takes rows quietly, and the "error" component
    /// is registered and quiet.
    pub open spec fn shows_errors_quietly(self) -> bool {
        &&& self.current().ends_quietly()
        &&& self.shell().takes_rows_quietly()
        &&& match self.registry().component("error"@) {
            Some(template) => is_quiet(template),
            None => false,
        }
    }

    /// The engine calls that show an error, given the record that tells it:
    /// the open component's closing, then the "error" component's opening
    /// without page data, the record as its first row, a row of the shell,
    /// and the "error" component's closing.
    pub open spec fn error_calls(self, template: SplitTemplate, record: Json) -> Seq<PageCall> {
        self.closing() + seq![
            PageCall::Component(template, RenderCall::Start(Json::Null)),
            PageCall::Component(template, RenderCall::Item(record, 0)),
        ] + self.shell_row() + seq![PageCall::Component(template, RenderCall::End)]
    }

    /// Whether `self` is the page `before` after `error` was shown in it.
    ///
    /// The engine was asked what `error_calls` lists, for a record that holds
    /// the error's message, its causes and the number of the statement. The
    /// error is reported, the component that was open is current again,
    /// ended, and the shell has rendered one more row.
    pub open spec fn is_error_shown(self, before: Self, error: Error) -> bool {
        &&& before.registry().component("error"@) is Some
        &&& self.reported() == before.reported().push((error, before.statement()))
        &&& self.current().is_ended(before.current())
        &&& self.shell().is_after_row(before.shell(), Json::Null)
        &&& exists|record: Json| #[trigger]
            is_error_record(record, error, before.statement() as usize) && self.rendered()
                == before.rendered() + before.error_calls(
                before.registry().component("error"@)->0,
                record,
            )
    }

    /// Renders an error into the page.
    ///
    /// Ends the open component, opens the "error" component, renders the
    /// error's record as its one row, lets the shell render a row, ends the
    /// "error" component, and puts the component that was open back in place,
    /// ended. Where any of that fails the error of the failure comes back,
    /// and the page cannot be trusted to show it.
    pub fn handle_error(&mut self, error: &Error) -> (r: Result<(), Error>)
        ensures
            final(self).advances(*old(self)),
            final(self).dispatched() == old(self).dispatched(),
            final(self).tried_to_show(*old(self), *error),
            match r {
                Ok(()) => final(self).is_error_shown(*old(self), *error),
                Err(e) => {
                    &&& e.kind == ErrorKind::ComponentNotFound || e.kind == ErrorKind::Render
                    &&& e.causes@.len() == 0
                    &&& e.kind == ErrorKind::ComponentNotFound ==> {
                        &&& old(self).registry().component("error"@) is None
                        &&& e.message@ == not_found_message("error"@)
                    }
                },
            },
            old(self).registry().component("error"@) is None ==> r is Err,
            old(self).registry().component("error"@) is None && old(self).current().ends_quietly()
                ==> r->Err_0.kind == ErrorKind::ComponentNotFound,
            old(self).shows_errors_quietly() ==> r is Ok && final(self).output() == old(self).output(),
    {
        let ghost ended = self.rendered@ + self.closing();
        match self.close_component() {
            Ok(()) => {},
            Err(e) => {
                return Err(e);
            },
        }
        let ghost closed = *self;
        assert(closed.closing() =~= Seq::<PageCall>::empty());
        assert(ended + closed.closing() =~= ended);
        let saved_component = match self.open_component_with_data("error", &Json::Null) {
            Ok(previous) => previous,
            Err(e) => {
                proof {
                    assert(self.current().is_ended(closed.current()) ==> self.current().is_ended(
                        old(self).current(),
                    ));
                }
                return Err(e);
            },
        };
        let ghost template = self.current().template();
        let ghost opened = *self;
        let record = error_record(error, self.current_statement);
        proof {
            self.reported@ = self.reported@.push((*error, self.current_statement as nat));
        }
        let shown = self.render_current_template_with_data(&record);
        proof {
            lemma_prefix_transitive(ended, opened.rendered(), self.rendered());
            assert(self.current().calls()[0] == RenderCall::Start(Json::Null));
        }
        match shown {
            Ok(()) => {},
            Err(e) => {
                return Err(e);
            },
        }
        let ghost rowed = *self;
        let end = self.close_component();
        proof {
            lemma_prefix_transitive(ended, rowed.rendered(), self.rendered());
            assert(self.current().calls()[0] == RenderCall::Start(Json::Null));
        }
        match end {
            Ok(()) => {},
            Err(e) => {
                return Err(e);
            },
        }
        self.current_component = saved_component;
        proof {
            assert(self.rendered() =~= old(self).rendered() + old(self).error_calls(
                template,
                record,
            ));
            assert(is_error_record(record, *error, old(self).statement() as usize));
        }
        Ok(())
    }

    /// Renders the error of a failed step into the page; does nothing for a
    /// step that succeeded.
    pub fn handle_result<R>(&mut self, result: &Result<R, Error>) -> (r: Result<(), Error>)
        ensures
            final(self).advances(*old(self)),
            final(self).dispatched() == old(self).dispatched(),
            result is Ok ==> r is Ok && *final(self) == *old(self),
            result matches Err(e) ==> {
                &&& final(self).tried_to_show(*old(self), *e)
                &&& r is Ok ==> final(self).is_error_shown(*old(self), *e)
                &&& old(self).registry().component("error"@) is None ==> r is Err
                &&& old(self).shows_errors_quietly() ==> r is Ok && final(self).output() == old(self).output()
            },
            r matches Err(e) ==> {
                &&& e.kind == ErrorKind::ComponentNotFound || e.kind == ErrorKind::Render
                &&& e.causes@.len() == 0
            },
    {
        match result {
            Err(error) => self.handle_error(error),
            Ok(_) => Ok(()),
        }
    }

    /// As `handle_result`, where a failure to show the error is given up on.
    ///
    /// A step that succeeded leaves the page as it is. For a step that
    /// failed the open component is ended and the error is shown as far as
    /// that goes: see `tried_to_show`. It is shown in full where showing it
    /// cannot fail.
    pub fn handle_result_and_log<R>(&mut self, result: &Result<R, Error>)
        ensures
            final(self).advances(*old(self)),
            final(self).dispatched() == old(self).dispatched(),
            result is Ok ==> *final(self) == *old(self),
            result matches Err(e) ==> {
                &&& final(self).tried_to_show(*old(self), *e)
                &&& old(self).shows_errors_quietly() ==> final(self).is_error_shown(
                    *old(self),
                    *e,
                ) && final(self).output() == old(self).output()
            },
    {
        let _ = self.handle_result(result);
    }

    /// Whether `self` is the page `before` after it was ended.
    ///
    /// The open component was ended first, then the shell. A closing that
    /// failed was shown as an error as far as that went, before the next
    /// step; so the current component is the one that was open, ended, or
    /// the "error" component of an attempt that failed. The shell is left
    /// without local state. Where no closing can fail, the two closings are
    /// all that was rendered, and nothing else has changed.
    pub open spec fn is_page_ended(self, before: Self) -> bool {
        let ended = before.rendered() + before.closing();
        &&& self.advances(before)
        &&& self.dispatched() == before.dispatched()
        &&& before.reported().is_prefix_of(self.reported())
        &&& ended.is_prefix_of(self.rendered())
        &&& self.current().is_ended(before.current()) || self.current().is_error_attempt(
            before.registry(),
        )
        &&& !self.shell().is_open()
        &&& before.current().ends_quietly() ==> (ended + before.shell_closing()).is_prefix_of(
            self.rendered(),
        )
        &&& before.current().ends_quietly() && before.shell().ends_quietly() ==> {
            &&& self.rendered() == ended + before.shell_closing()
            &&& self.output() == before.output()
            &&& self.reported() == before.reported()
            &&& self.current().is_ended(before.current())
            &&& self.shell().is_ended(before.shell())
        }
    }

    /// A closing that failed, as the error that is shown for it.
    fn closing_failure(what: &str, e: &Error) -> (r: Error)
        ensures
            r.kind == ErrorKind::Render,
            r.message@ == what@ + e.message@,
            r.causes@.len() == 0,
    {
        let message = String::from_str(what).concat(e.message.as_str());
        Error::new(ErrorKind::Render, message.as_str())
    }

    /// Ends the page: the open component first, then the shell. A closing
    /// that fails is shown in the page as an error where that is still
    /// possible, and the other closing is attempted all the same.
    pub fn finish(&mut self)
        ensures
            final(self).is_page_ended(*old(self)),
    {
        let ghost ended = self.rendered@ + self.closing();
        let res = match self.close_component() {
            Ok(()) => Ok(()),
            Err(e) => Err(Self::closing_failure("Unable to render the component closing: ", &e)),
        };
        let ghost closed = *self;
        assert(closed.closing() =~= Seq::<PageCall>::empty());
        assert(closed.rendered() + closed.closing() =~= closed.rendered());
        self.handle_result_and_log(&res);
        let ghost shown = *self;
        proof {
            lemma_prefix_transitive(old(self).output(), closed.output(), shown.output());
            lemma_prefix_transitive(old(self).rendered(), closed.rendered(), shown.rendered());
            assert(shown.current().is_ended(closed.current()) ==> shown.current().is_ended(
                old(self).current(),
            ));
        }
        let res = match self.close_shell() {
            Ok(()) => Ok(()),
            Err(e) => Err(Self::closing_failure("Unable to render the shell closing: ", &e)),
        };
        let ghost last = *self;
        self.handle_result_and_log(&res);
        proof {
            lemma_prefix_transitive(old(self).output(), shown.output(), last.output());
            lemma_prefix_transitive(old(self).output(), last.output(), self.output());
            lemma_prefix_transitive(ended, shown.rendered(), last.rendered());
            lemma_prefix_transitive(ended, last.rendered(), self.rendered());
            lemma_prefix_transitive(old(self).rendered(), ended, self.rendered());
            lemma_prefix_transitive(old(self).reported(), shown.reported(), self.reported());
            if self.current().is_ended(last.current()) {
                if last.current().is_error_attempt(old(self).registry()) {
                    assert(self.current().calls()[0] == last.current().calls()[0]);
                }
            }
            if old(self).current().ends_quietly() {
                assert(shown == closed);
                lemma_prefix_transitive(
                    ended + old(self).shell_closing(),
                    last.rendered(),
                    self.rendered(),
                );
            }
        }
    }

    /// Ends the page and hands back everything that was rendered and not
    /// taken away: see `finish`.
    pub fn close(self) -> (r: Vec<u8>)
        ensures
            exists|end: RenderContext<'a>| #[trigger] end.is_page_ended(self) && r@ == end.output(),
            self.output().is_prefix_of(r@),
            self.current().ends_quietly() && self.shell().ends_quietly() ==> r@ == self.output(),
    {
        let mut this = self;
        this.finish();
        assert(this.is_page_ended(self) && this.writer@ == this.output());
        this.writer
    }
}

/// The record that shows an error in the page.
pub open spec fn is_error_record(record: Json, error: Error, query_number: usize) -> bool {
    &&& record.spec_get("query_number"@) == Some(
        Json::Number(crate::json::number_of_u64(query_number as u64)),
    )
    &&& object_str(record, "description"@) == Some(error.message@)
    &&& record.spec_get("backtrace"@) matches Some(Json::Array(items)) && items@.len()
        == error.causes@.len() && forall|i: int|
        0 <= i < items@.len() ==> (#[trigger] items@[i]).spec_as_str() == Some(error.causes@[i]@)
    &&& component_of(record) is None
}

/// Builds the record that shows an error in the page: the number of the
/// statement that failed, the error's message as its description, and its
/// causes as the backtrace, the root cause last.
pub fn error_record(error: &Error, query_number: usize) -> (r: Json)
    ensures
        is_error_record(r, *error, query_number),
{
    let mut backtrace: Vec<Json> = Vec::new();
    let mut i: usize = 0;
    while i < error.causes.len()
        invariant
            i <= error.causes.len(),
            backtrace@.len() == i,
            forall|j: int|
                0 <= j < i ==> (#[trigger] backtrace@[j]).spec_as_str() == Some(
                    error.causes@[j]@,
                ),
        decreases error.causes.len() - i,
    {
        backtrace.push(Json::from_str(error.causes[i].as_str()));
        i += 1;
    }
    let mut entries: Vec<(String, Json)> = Vec::new();
    entries.push(("query_number".to_owned(), Json::from_u64(query_number as u64)));
    entries.push(("description".to_owned(), Json::from_str(error.message.as_str())));
    entries.push(("backtrace".to_owned(), Json::Array(backtrace)));
    proof {
        reveal_strlit("query_number");
        reveal_strlit("description");
        reveal_strlit("backtrace");
        reveal_strlit("component");
        let e = entries@;
        let e2 = e.drop_last();
        let e1 = e2.drop_last();
        assert(e1.drop_last().len() == 0);
        assert(e.last() == e[2] && e2.last() == e[1] && e1.last() == e[0]);
        assert("component"@[0] != "backtrace"@[0]);
        assert("backtrace"@.len() == 9 && "component"@.len() == 9);
        assert("description"@.len() == 11 && "query_number"@.len() == 12);
        assert(lookup(e1, "query_number"@) == Some(e[0].1));
        assert(lookup(e2, "query_number"@) == Some(e[0].1));
        assert(lookup(e, "query_number"@) == Some(e[0].1));
        assert(lookup(e2, "description"@) == Some(e[1].1));
        assert(lookup(e, "description"@) == Some(e[1].1));
        assert(lookup(e, "backtrace"@) == Some(e[2].1));
        assert(lookup(e1.drop_last(), "component"@) is None);
        assert(lookup(e1, "component"@) is None);
        assert(lookup(e2, "component"@) is None);
        assert(lookup(e, "component"@) is None);
    }
    let r = Json::Object(entries);
    assert(r.spec_get("backtrace"@) == Some(Json::Array(backtrace)));
    r
}

/// Whether a later entry has the key of the entry at position `i`, so that
/// the entry at `i` is not the one that binds its key.
pub open spec fn is_shadowed(entries: Seq<(String, Json)>, i: int) -> bool {
    exists|j: int| i < j < entries.len() && (#[trigger] entries[j]).0@ == entries[i].0@
}

/// The header directives that the first `count` entries of a record give.
///
/// An entry gives a directive where it binds its key, that is where no later
/// entry has the same key, and where its key is not the control key. The
/// directive is the entry's name and value. `None` where one of these values
/// is no string.
pub open spec fn directives_of(entries: Seq<(String, Json)>, count: nat) -> Option<
    Seq<(Seq<char>, Seq<char>)>,
>
    decreases count,
{
    if count == 0 {
        Some(Seq::empty())
    } else {
        let entry = entries[count - 1];
        match directives_of(entries, (count - 1) as nat) {
            Some(front) => if entry.0@ == component_key() || is_shadowed(entries, count - 1) {
                Some(front)
            } else {
                match entry.1.spec_as_str() {
                    Some(value) => Some(front.push((entry.0@, value))),
                    None => None,
                }
            },
            None => None,
        }
    }
}

/// The header directives that the entries of a record give: name and value
/// of every key but the control key, as the record binds them, in the order
/// of the entries. `None` where one of these values is no string.
pub open spec fn header_directives(entries: Seq<(String, Json)>) -> Option<
    Seq<(Seq<char>, Seq<char>)>,
> {
    directives_of(entries, entries.len())
}

/// The header directives of a record: those of its entries, where it is an object.
pub open spec fn record_headers(data: Json) -> Option<Seq<(Seq<char>, Seq<char>)>> {
    match data {
        Json::Object(entries) => header_directives(entries@),
        _ => None,
    }
}

/// Whether a record is a header record: one whose control key is "http_header".
pub open spec fn is_header_record(data: Json) -> bool {
    component_of(data) == Some("http_header"@)
}

/// The message of the error for a header value that is no string.
pub open spec fn invalid_header_message() -> Seq<char> {
    "http header values must be strings"@
}

/// The state of a page before its status and headers are fixed.
pub struct HeaderContext<'a> {
    templates: &'a AllTemplates,
    /// The sink that the body will be rendered into.
    pub writer: Vec<u8>,
    response: ResponseHead,
}

/// A page in one of its two phases.
pub enum PageContext<'a> {
    /// The headers are still open.
    Header(HeaderContext<'a>),
    /// The headers are fixed and the body is being rendered.
    Body { http_response: ResponseHead, renderer: RenderContext<'a> },
}

impl<'a> HeaderContext<'a> {
    /// The registry that the body's components will be looked up in.
    pub closed spec fn registry(self) -> AllTemplates {
        *self.templates
    }

    /// The bytes in `writer`.
    pub closed spec fn output(self) -> Seq<u8> {
        self.writer@
    }

    /// The response head as it stands.
    pub closed spec fn head(self) -> ResponseHead {
        self.response
    }

    /// The start of a page: status 200, served as HTML.
    pub fn new(templates: &'a AllTemplates, writer: Vec<u8>) -> (r: Self)
        ensures
            r.registry() == *templates,
            r.output() == writer@,
            r.head().status == 200,
            r.head().header_list() == seq![("Content-Type"@, "text/html; charset=utf-8"@)],
    {
        HeaderContext { templates, writer, response: ResponseHead::new() }
    }

    /// Takes the first records of a page.
    ///
    /// A header record adds its entries to the response's headers and leaves
    /// the headers open. Every other record fixes the headers and opens the
    /// body with itself as the first record.
    pub fn handle_row(self, data: Json) -> (r: Result<PageContext<'a>, Error>)
        ensures
            is_header_record(data) ==> match record_headers(data) {
                Some(directives) => {
                    &&& r matches Ok(PageContext::Header(next))
                    &&& next.registry() == self.registry()
                    &&& next.output() == self.output()
                    &&& next.head().status == self.head().status
                    &&& next.head().header_list() == self.head().header_list() + directives
                },
                None => {
                    &&& r is Err
                    &&& r->Err_0.kind == ErrorKind::InvalidHeader
                    &&& r->Err_0.message@ == invalid_header_message()
                },
            },
            !is_header_record(data) ==> self.is_body_started(data, r),
    {
        let is_header = match get_object_str(&data, "component") {
            Some(name) => str_eq(name, "http_header"),
            None => false,
        };
        if is_header {
            match self.add_http_header(&data) {
                Ok(next) => Ok(PageContext::Header(next)),
                Err(e) => Err(e),
            }
        } else {
            self.start_body(data)
        }
    }

    /// Adds the entries of a header record to the response's headers.
    fn add_http_header(self, data: &Json) -> (r: Result<Self, Error>)
        ensures
            match record_headers(*data) {
                Some(directives) => {
                    &&& r matches Ok(next)
                    &&& next.registry() == self.registry()
                    &&& next.output() == self.output()
                    &&& next.head().status == self.head().status
                    &&& next.head().header_list() == self.head().header_list() + directives
                },
                None => {
                    &&& r is Err
                    &&& r->Err_0.kind == ErrorKind::InvalidHeader
                    &&& (*data is Object ==> r->Err_0.message@ == invalid_header_message())
                },
            },
    {
        let mut this = self;
        match data {
            Json::Object(entries) => {
                let mut i: usize = 0;
                while i < entries.len()
                    invariant
                        i <= entries.len(),
                        this.registry() == self.registry(),
                        this.output() == self.output(),
                        this.head().status == self.head().status,
                        record_headers(*data) == header_directives(entries@),
                        *data is Object,
                        directives_of(entries@, i as nat) matches Some(done)
                            && this.head().header_list() == self.head().header_list() + done,
                    decreases entries.len() - i,
                {
                    let ghost done = directives_of(entries@, i as nat)->0;
                    let name = entries[i].0.as_str();
                    if !str_eq(name, "component") && !occurs_later(entries, i) {
                        match entries[i].1.as_str() {
                            Some(value) => {
                                this.response.insert_header(name, value);
                                assert(this.head().header_list() == self.head().header_list() + (
                                done.push((name@, value@))));
                            },
                            None => {
                                proof {
                                    assert(directives_of(entries@, (i + 1) as nat) is None);
                                    lemma_directives_none(entries@, (i + 1) as nat);
                                }
                                return Err(
                                    Error::new(
                                        ErrorKind::InvalidHeader,
                                        "http header values must be strings",
                                    ),
                                );
                            },
                        }
                    }
                    i += 1;
                }
                Ok(this)
            },
            _ => Err(Error::new(ErrorKind::InvalidHeader, "expected object")),
        }
    }

    /// Whether `r` is what opening the body with `data` gives.
    ///
    /// On success the headers are fixed as they stand and the body is a page
    /// that was just opened with `data`. It succeeds where the body opens
    /// quietly, and fails with the error of the opening where the shell or
    /// the first component is missing.
    pub open spec fn is_body_started(self, data: Json, r: Result<PageContext<'a>, Error>) -> bool {
        &&& self.registry().component("shell"@) is None ==> r is Err
        &&& self.registry().component(initial_component(data)) is None ==> r is Err
        &&& opens_quietly(self.registry(), data) ==> r is Ok
        &&& r matches Err(e) ==> is_opening_failure(e, self.registry(), data)
        &&& r matches Ok(page) ==> {
            &&& page matches PageContext::Body { http_response, renderer }
            &&& http_response == self.head()
            &&& renderer.is_new_page(self.registry(), self.output(), data)
        }
    }

    /// Whether `r` is what showing `error` as the first thing of the body
    /// gives.
    ///
    /// On success the headers are fixed as they stand, and the body is a
    /// page that was opened without a record, with the default component,
    /// and in which the error was then shown. It succeeds where nothing of
    /// that can fail.
    pub open spec fn is_error_page(self, error: Error, r: Result<PageContext<'a>, Error>) -> bool {
        &&& self.registry().component("shell"@) is None ==> r is Err
        &&& self.registry().component("default"@) is None ==> r is Err
        &&& self.registry().component("error"@) is None ==> r is Err
        &&& shows_first_error_quietly(self.registry()) ==> r is Ok
        &&& r matches Err(e) ==> is_opening_failure(e, self.registry(), Json::Null)
            || is_showing_failure(e, self.registry())
        &&& r matches Ok(page) ==> {
            &&& page matches PageContext::Body { http_response, renderer }
            &&& http_response == self.head()
            &&& renderer.registry() == self.registry()
            &&& self.output().is_prefix_of(renderer.output())
            &&& renderer.statement() == 1
            &&& renderer.depth() == 0
            &&& renderer.dispatched().len() == 0
            &&& renderer.reported() == seq![(error, 1nat)]
            &&& exists|opened: RenderContext<'a>| #[trigger]
                opened.is_new_page(self.registry(), self.output(), Json::Null)
                    && renderer.is_error_shown(opened, error)
        }
    }

    /// Fixes the headers and opens the body with its first record.
    fn start_body(self, data: Json) -> (r: Result<PageContext<'a>, Error>)
        ensures
            self.is_body_started(data, r),
    {
        let HeaderContext { templates, writer, response } = self;
        match RenderContext::new(templates, writer, data) {
            Ok(renderer) => Ok(PageContext::Body { http_response: response, renderer }),
            Err(e) => Err(e),
        }
    }

    /// Takes an error that arrives before any body record: fixes the
    /// headers, opens the body with the default component, and shows the
    /// error in the page.
    pub fn handle_error(self, error: Error) -> (r: Result<PageContext<'a>, Error>)
        ensures
            self.is_error_page(error, r),
    {
        let HeaderContext { templates, writer, response } = self;
        proof {
            reveal_strlit("component");
            assert(lookup(Seq::<(String, Json)>::empty(), component_key()) is None);
            assert(initial_component(Json::Null) == "default"@);
        }
        let mut renderer = match RenderContext::new(templates, writer, Json::Null) {
            Ok(renderer) => renderer,
            Err(e) => {
                return Err(e);
            },
        };
        let ghost opened = renderer;
        match renderer.handle_error(&error) {
            Ok(()) => {
                proof {
                    lemma_prefix_transitive(self.output(), opened.output(), renderer.output());
                    assert(renderer.reported() =~= seq![(error, 1nat)]);
                    assert(opened.is_new_page(self.registry(), self.output(), Json::Null));
                }
                Ok(PageContext::Body { http_response: response, renderer })
            },
            Err(e) => Err(e),
        }
    }

    /// Ends a page that never got a body: the response head as it stands.
    pub fn close(self) -> (r: ResponseHead)
        ensures
            r == self.head(),
    {
        self.response
    }
}

/// Entries of which the first `count` give no header directives give none
/// as a whole.
proof fn lemma_directives_none(entries: Seq<(String, Json)>, count: nat)
    requires
        count <= entries.len(),
        directives_of(entries, count) is None,
    ensures
        header_directives(entries) is None,
    decreases entries.len() - count,
{
    if count < entries.len() {
        lemma_directives_none(entries, count + 1);
    }
}

/// Whether an entry after the one at position `i` has its key.
fn occurs_later(entries: &Vec<(String, Json)>, i: usize) -> (r: bool)
    requires
        i < entries@.len(),
    ensures
        r == is_shadowed(entries@, i as int),
{
    let count = entries.len();
    let mut j: usize = i + 1;
    while j < count
        invariant
            count == entries.len(),
            i < j <= count,
            forall|m: int| i < m < j ==> (#[trigger] entries@[m]).0@ != entries@[i as int].0@,
        decreases count - j,
    {
        if str_eq(entries[j].0.as_str(), entries[i].0.as_str()) {
            return true;
        }
        j += 1;
    }
    false
}

} // verus!
