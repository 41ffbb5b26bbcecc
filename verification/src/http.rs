//! The HTTP side of the pipeline: request variables, the response head, and
//! the decisions taken for each item while a page is resolved and streamed.

use crate::database::DbItem;
use crate::error::{texts, Error, ErrorKind};
use crate::json::{json_text, str_eq, Json};
use crate::render::{
    dispatch_order, invalid_header_message, is_dynamic, is_header_record, is_opening_failure,
    is_row_handled, is_showing_failure, lemma_prefix_transitive, opened_by, opens_quietly, record_headers,
    shows_first_error_quietly, HeaderContext, PageContext, RenderContext,
};
use crate::templates::AllTemplates;
use rand::Rng;
use vstd::prelude::*;
use vstd::string::StrSliceExecFns;
use vstd::string::StringExecFns;

verus! {

/// The status and the headers of a response, as far as the page decides them.
///
/// `headers` lists the header directives in the order in which they were
/// given. They are applied in that order: a later directive for the same
/// header wins.
#[derive(Debug, PartialEq, Eq)]
pub struct ResponseHead {
    pub status: u16,
    pub headers: Vec<(String, String)>,
}

/// Name and value of each entry of a list of headers.
pub open spec fn header_texts(headers: Seq<(String, String)>) -> Seq<(Seq<char>, Seq<char>)> {
    headers.map_values(|h: (String, String)| (h.0@, h.1@))
}

impl ResponseHead {
    /// The header directives as sequences of characters.
    pub open spec fn header_list(self) -> Seq<(Seq<char>, Seq<char>)> {
        header_texts(self.headers@)
    }

    /// The head of an HTML page that is served with success.
    pub fn new() -> (r: Self)
        ensures
            r.status == 200,
            r.header_list() == seq![("Content-Type"@, "text/html; charset=utf-8"@)],
    {
        let mut headers: Vec<(String, String)> = Vec::new();
        headers.push(("Content-Type".to_owned(), "text/html; charset=utf-8".to_owned()));
        let r = ResponseHead { status: 200, headers };
        assert(r.header_list() =~= seq![("Content-Type"@, "text/html; charset=utf-8"@)]);
        r
    }

    /// Adds a header directive after those that are there.
    pub fn insert_header(&mut self, name: &str, value: &str)
        ensures
            final(self).status == old(self).status,
            final(self).header_list() == old(self).header_list().push((name@, value@)),
    {
        self.headers.push((name.to_owned(), value.to_owned()));
        assert(self.header_list() =~= old(self).header_list().push((name@, value@)));
    }
}

/// Whether `array` is the JSON array of the strings `items`.
pub open spec fn is_string_array(array: Json, items: Seq<Seq<char>>) -> bool {
    &&& array matches Json::Array(values)
    &&& values@.len() == items.len()
    &&& forall|i: int|
        0 <= i < items.len() ==> (#[trigger] values@[i]).spec_as_str() == Some(items[i])
}

/// The value of a request variable: one string, or a list of strings.
#[derive(Debug, PartialEq)]
pub enum SingleOrVec {
    Single(String),
    Vec(Vec<String>),
}

impl SingleOrVec {
    /// The strings of the value, in order.
    pub open spec fn items(self) -> Seq<Seq<char>> {
        match self {
            SingleOrVec::Single(s) => seq![s@],
            SingleOrVec::Vec(v) => texts(v@),
        }
    }

    /// Merges a second value for the same variable into this one.
    ///
    /// A single string replaces a single string. In every other case the
    /// result is the list of the old strings followed by the new ones.
    pub fn merge(&mut self, other: Self)
        ensures
            (*old(self) is Single && other is Single) ==> *final(self) is Single,
            !(*old(self) is Single && other is Single) ==> *final(self) is Vec,
            final(self).items() == if *old(self) is Single && other is Single {
                other.items()
            } else {
                old(self).items() + other.items()
            },
    {
        let mut other = other;
        let both_single = match (&*self, &other) {
            (SingleOrVec::Single(_), SingleOrVec::Single(_)) => true,
            _ => false,
        };
        if both_single {
            *self = other;
        } else {
            let mut v = self.take_vec();
            let mut w = other.take_vec();
            let ghost a = texts(v@);
            let ghost b = texts(w@);
            v.append(&mut w);
            assert(texts(v@) =~= a + b);
            *self = SingleOrVec::Vec(v);
        }
    }

    /// The value as one string: a single string as it is, a list as the JSON
    /// text of an array of strings.
    pub fn as_json_str(&self) -> (r: String)
        ensures
            match *self {
                SingleOrVec::Single(s) => r@ == s@,
                SingleOrVec::Vec(v) => exists|array: Json|
                    is_string_array(array, texts(v@)) && r@ == json_text(array),
            },
    {
        match self {
            SingleOrVec::Single(x) => x.clone(),
            SingleOrVec::Vec(v) => {
                let mut items: Vec<Json> = Vec::new();
                let mut i: usize = 0;
                while i < v.len()
                    invariant
                        i <= v.len(),
                        items@.len() == i,
                        forall|j: int|
                            0 <= j < i ==> (#[trigger] items@[j]).spec_as_str() == Some(v@[j]@),
                    decreases v.len() - i,
                {
                    items.push(Json::from_str(v[i].as_str()));
                    i += 1;
                }
                let array = Json::Array(items);
                assert(is_string_array(array, texts(v@)));
                array.to_text()
            },
        }
    }

    /// Moves the strings out as a list and leaves an empty value of the same
    /// shape behind.
    pub fn take_vec(&mut self) -> (r: Vec<String>)
        ensures
            texts(r@) == old(self).items(),
            *old(self) is Single ==> *final(self) is Single,
            *old(self) is Vec ==> *final(self) is Vec,
            final(self).items() == if *old(self) is Single {
                seq![Seq::<char>::empty()]
            } else {
                Seq::<Seq<char>>::empty()
            },
    {
        let mut taken = SingleOrVec::Vec(Vec::new());
        core::mem::swap(self, &mut taken);
        match taken {
            SingleOrVec::Single(x) => {
                *self = SingleOrVec::Single(String::new());
                let mut v: Vec<String> = Vec::new();
                v.push(x);
                assert(texts(v@) =~= seq![x@]);
                assert(self.items() =~= seq![Seq::<char>::empty()]);
                v
            },
            SingleOrVec::Vec(v) => {
                assert(self.items() =~= Seq::<Seq<char>>::empty());
                v
            },
        }
    }
}

/// How many chunks of a response body may wait for the client at a time.
/// A page that is rendered faster than it is read stops rendering until the
/// client has caught up.
pub const MAX_PENDING_MESSAGES: usize = 128;

/// Takes what was rendered out of a writer, as the next chunk of the
/// response body. There is no chunk where nothing was rendered.
pub fn take_chunk(writer: &mut Vec<u8>) -> (r: Option<Vec<u8>>)
    ensures
        final(writer)@.len() == 0,
        match r {
            Some(chunk) => chunk@ == old(writer)@ && chunk@.len() > 0,
            None => old(writer)@.len() == 0,
        },
{
    if writer.len() == 0 {
        None
    } else {
        let mut chunk: Vec<u8> = Vec::new();
        core::mem::swap(writer, &mut chunk);
        Some(chunk)
    }
}

/// What resolving the headers of a page gives.
pub enum ResponseWithWriter<'a> {
    /// The headers are fixed and a body follows: it is rendered from the
    /// items that are left.
    RenderStream {
        http_response: ResponseHead,
        renderer: RenderContext<'a>,
        database_entries_stream: Vec<DbItem>,
    },
    /// The statements ended before any body record: the response is complete.
    FinishedResponse { http_response: ResponseHead },
}

/// Whether an item leaves the headers open: the end of a statement, or a
/// header record whose values are all strings.
pub open spec fn stays_in_header(item: DbItem) -> bool {
    match item {
        DbItem::FinishedQuery => true,
        DbItem::Row(data) => is_header_record(data) && record_headers(data) is Some,
        DbItem::Error(_) => false,
    }
}

/// The header directives that an item gives while the headers are open.
pub open spec fn item_headers(item: DbItem) -> Seq<(Seq<char>, Seq<char>)> {
    match item {
        DbItem::Row(data) => match record_headers(data) {
            Some(directives) => directives,
            None => Seq::empty(),
        },
        _ => Seq::empty(),
    }
}

/// The header directives that a run of items gives, in order.
pub open spec fn all_headers(items: Seq<DbItem>) -> Seq<(Seq<char>, Seq<char>)>
    decreases items.len(),
{
    if items.len() == 0 {
        Seq::empty()
    } else {
        all_headers(items.drop_last()) + item_headers(items.last())
    }
}

/// How many items at the start of a run leave the headers open.
pub open spec fn header_phase_len(items: Seq<DbItem>) -> nat
    decreases items.len(),
{
    if items.len() == 0 || !stays_in_header(items[0]) {
        0
    } else {
        1 + header_phase_len(items.drop_first())
    }
}

/// Whether an item is owed success while the headers are open: the end of a
/// statement, a header record whose values are strings, a body record with
/// which the body opens quietly, or an error without status that can be
/// shown without failure.
pub open spec fn header_success_owed(registry: AllTemplates, item: DbItem) -> bool {
    match item {
        DbItem::FinishedQuery => true,
        DbItem::Row(data) => if is_header_record(data) {
            record_headers(data) is Some
        } else {
            opens_quietly(registry, data)
        },
        DbItem::Error(e) => e.status is None && shows_first_error_quietly(registry),
    }
}

/// Whether `e` is the error that an item gives while the headers are open.
///
/// A header record fails for a value that is no string. A body record fails
/// as the opening of the body fails. An error with a status comes back as it
/// is; one without fails as the opening of the body fails, or as showing an
/// error fails.
pub open spec fn is_header_failure(registry: AllTemplates, item: DbItem, e: Error) -> bool {
    match item {
        DbItem::FinishedQuery => false,
        DbItem::Row(data) => if is_header_record(data) {
            &&& record_headers(data) is None
            &&& e.kind == ErrorKind::InvalidHeader
            &&& e.message@ == invalid_header_message()
        } else {
            is_opening_failure(e, registry, data)
        },
        DbItem::Error(source) => if source.status is Some {
            e == source
        } else {
            is_opening_failure(e, registry, Json::Null) || is_showing_failure(e, registry)
        },
    }
}

/// Whether `renderer` is the body that an item opens on top of what
/// `written` holds: a page just opened with a body record, or a page opened
/// without a record in which an error without status was then shown.
pub open spec fn is_first_page<'a>(
    renderer: RenderContext<'a>,
    registry: AllTemplates,
    written: Seq<u8>,
    item: DbItem,
) -> bool {
    match item {
        DbItem::FinishedQuery => false,
        DbItem::Row(data) => !is_header_record(data) && renderer.is_new_page(
            registry,
            written,
            data,
        ),
        DbItem::Error(e) => {
            &&& e.status is None
            &&& renderer.registry() == registry
            &&& written.is_prefix_of(renderer.output())
            &&& renderer.statement() == 1
            &&& renderer.depth() == 0
            &&& renderer.dispatched().len() == 0
            &&& renderer.reported() == seq![(e, 1nat)]
            &&& exists|opened: RenderContext<'a>| #[trigger]
                opened.is_new_page(registry, written, Json::Null) && renderer.is_error_shown(
                    opened,
                    e,
                )
        },
    }
}

/// Takes one item while the headers of a page are open.
///
/// The end of a statement changes nothing. A row goes to the header context,
/// which either collects its headers or opens the body with it. An error
/// that carries an HTTP status ends the page: it comes back as it is, to
/// become the response. Every other error opens the body and is shown in it.
pub fn header_step<'a>(head: HeaderContext<'a>, item: DbItem) -> (r: Result<
    PageContext<'a>,
    Error,
>)
    ensures
        stays_in_header(item) ==> {
            &&& r matches Ok(PageContext::Header(next))
            &&& next.registry() == head.registry()
            &&& next.output() == head.output()
            &&& next.head().status == head.head().status
            &&& next.head().header_list() == head.head().header_list() + item_headers(item)
        },
        item is Error && item->Error_0.status is Some ==> r is Err && r->Err_0 == item->Error_0,
        header_success_owed(head.registry(), item) ==> r is Ok,
        r matches Err(e) ==> is_header_failure(head.registry(), item, e),
        r matches Ok(PageContext::Header(_)) ==> stays_in_header(item),
        r matches Ok(PageContext::Body { http_response, renderer }) ==> {
            &&& http_response == head.head()
            &&& is_first_page(renderer, head.registry(), head.output(), item)
        },
{
    match item {
        DbItem::Row(data) => head.handle_row(data),
        DbItem::FinishedQuery => {
            assert(head.head().header_list() + Seq::empty() == head.head().header_list());
            Ok(PageContext::Header(head))
        },
        DbItem::Error(source_err) => {
            if source_err.status.is_some() {
                Err(source_err)
            } else {
                head.handle_error(source_err)
            }
        },
    }
}

/// Whether `after` and `r` are what one item makes of the page `before`
/// while its body is rendered.
///
/// The end of a statement advances the statement counter and nothing else.
/// A row is dispatched; where that fails, the failure is shown as an error,
/// and where the step succeeds without reporting an error, the row was
/// handled as `is_row_handled` tells.
/// An error is shown in the page: the open component is ended first, and
/// where showing it fails, the failure is shown in its place. The step fails
/// only where an error could not be shown. It succeeds wherever the engine
/// cannot fail.
pub open spec fn is_stream_step(
    before: RenderContext,
    item: DbItem,
    after: RenderContext,
    r: Result<(), Error>,
) -> bool {
    &&& after.advances(before) || item is FinishedQuery
    &&& after.registry() == before.registry()
    &&& before.output().is_prefix_of(after.output())
    &&& before.rendered().is_prefix_of(after.rendered())
    &&& after.depth() == before.depth()
    &&& after.shell().template() == before.shell().template()
    &&& match item {
        DbItem::FinishedQuery => {
            &&& r is Ok
            &&& after.output() == before.output()
            &&& after.current() == before.current()
            &&& after.shell() == before.shell()
            &&& after.dispatched() == before.dispatched()
            &&& after.reported() == before.reported()
            &&& after.rendered() == before.rendered()
            &&& after.statement() == if before.statement() < usize::MAX {
                before.statement() + 1
            } else {
                before.statement()
            }
        },
        DbItem::Row(data) => {
            &&& after.statement() == before.statement()
            &&& before.dispatched().push((data, before.depth())).is_prefix_of(after.dispatched())
            &&& after.dispatched().is_prefix_of(
                before.dispatched() + dispatch_order(data, before.depth()),
            )
            &&& r is Ok && after.reported() == before.reported() ==> is_row_handled(
                before,
                data,
                after,
                Ok(()),
            )
            &&& !is_dynamic(data) ==> match opened_by(data, before.current().spec_name()) {
                Some(name) => before.opens_component_quietly(name) ==> {
                    &&& r is Ok
                    &&& after.is_opened(before, name, data, true)
                    &&& after.reported() == before.reported()
                    &&& after.output() == before.output()
                },
                None => before.takes_rows_quietly() ==> {
                    &&& r is Ok
                    &&& after.is_row_rendered(before, data, true)
                    &&& after.reported() == before.reported()
                    &&& after.output() == before.output()
                },
            }
        },
        DbItem::Error(e) => {
            &&& after.statement() == before.statement()
            &&& after.dispatched() == before.dispatched()
            &&& (before.rendered() + before.closing()).is_prefix_of(after.rendered())
            &&& after.current().is_ended(before.current()) || after.current().is_error_attempt(
                before.registry(),
            )
            &&& r is Ok ==> after.reported().len() > before.reported().len()
            &&& before.shows_errors_quietly() ==> {
                &&& r is Ok
                &&& after.is_error_shown(before, e)
                &&& after.output() == before.output()
            }
        },
    }
    &&& before.reported().is_prefix_of(after.reported())
    &&& after.reported().len() <= before.reported().len() + 2
    &&& forall|k: int|
        before.reported().len() <= k < after.reported().len() ==> (#[trigger] after.reported()[k]).1
            == before.statement()
    &&& r matches Err(e) ==> is_showing_failure(e, before.registry())
    &&& r is Err ==> !(item is FinishedQuery)
}

/// Takes one item while the body of a page is rendered.
///
/// The end of a statement advances the statement counter, a row is
/// dispatched, an error is shown in the page. A row that fails is shown in
/// the page as an error too. Only where showing an error fails does the step
/// fail: the page is then beyond repair and has to be ended.
pub fn stream_step(renderer: &mut RenderContext, item: DbItem) -> (r: Result<(), Error>)
    ensures
        is_stream_step(*old(renderer), item, *final(renderer), r),
{
    let ghost start = *renderer;
    let render_result = match item {
        DbItem::FinishedQuery => renderer.finish_query(),
        DbItem::Row(row) => renderer.handle_row(&row),
        DbItem::Error(e) => renderer.handle_error(&e),
    };
    match render_result {
        Ok(()) => Ok(()),
        Err(e) => {
            let ghost first = *renderer;
            let r = renderer.handle_error(&e);
            proof {
                if r is Ok {
                    assert(renderer.reported().len() == first.reported().len() + 1);
                    assert(first.reported().len() >= start.reported().len());
                }
                lemma_prefix_transitive(start.output(), first.output(), renderer.output());
                lemma_prefix_transitive(start.rendered(), first.rendered(), renderer.rendered());
                if item is Error {
                    lemma_prefix_transitive(
                        start.rendered() + start.closing(),
                        first.rendered(),
                        renderer.rendered(),
                    );
                    if renderer.current().is_ended(first.current()) {
                        if first.current().is_error_attempt(start.registry()) {
                            assert(renderer.current().calls()[0] == first.current().calls()[0]);
                        }
                    }
                }
            }
            r
        },
    }
}

/// A list with the items of `items` in the opposite order.
fn reversed<T>(items: Vec<T>) -> (r: Vec<T>)
    ensures
        r@ == items@.reverse(),
{
    let mut items = items;
    let ghost all = items@;
    let mut r: Vec<T> = Vec::new();
    while items.len() > 0
        invariant
            items@.len() <= all.len(),
            items@ == all.take(items@.len() as int),
            r@.len() == all.len() - items@.len(),
            forall|j: int| 0 <= j < r@.len() ==> r@[j] == all[all.len() - 1 - j],
        decreases items.len(),
    {
        let item = items.pop().unwrap();
        r.push(item);
    }
    assert(r@ =~= all.reverse());
    r
}

/// `header_phase_len` is the one position before which every item leaves the
/// headers open and at which one does not, if it lies inside the run.
pub proof fn lemma_header_phase_len(items: Seq<DbItem>, k: int)
    requires
        0 <= k <= items.len(),
        forall|j: int| 0 <= j < k ==> stays_in_header(#[trigger] items[j]),
        k < items.len() ==> !stays_in_header(items[k]),
    ensures
        header_phase_len(items) == k,
    decreases items.len(),
{
    if k > 0 {
        let rest = items.drop_first();
        assert(stays_in_header(items[0]));
        assert forall|j: int| 0 <= j < k - 1 implies stays_in_header(#[trigger] rest[j]) by {
            assert(rest[j] == items[j + 1]);
        }
        if k - 1 < rest.len() {
            assert(rest[k - 1] == items[k]);
        }
        lemma_header_phase_len(rest, k - 1);
    }
}

/// The headers of a response before any header record.
pub open spec fn default_headers() -> Seq<(Seq<char>, Seq<char>)> {
    seq![("Content-Type"@, "text/html; charset=utf-8"@)]
}

/// Resolves the status and the headers of a page from the items that its
/// statements produce.
///
/// Items are taken in order while they leave the headers open. The first
/// item that does not decides: an error with an HTTP status ends the page
/// and comes back as the error; every other item opens the body, and the
/// items after it are handed back to be streamed. Where the items end before
/// any body record, the response is complete and has no body to stream.
pub fn build_response_header_and_stream<'a>(
    templates: &'a AllTemplates,
    database_entries: Vec<DbItem>,
) -> (r: Result<ResponseWithWriter<'a>, Error>)
    ensures
        header_phase_len(database_entries@) == database_entries@.len() ==> {
            &&& r matches Ok(ResponseWithWriter::FinishedResponse { http_response })
            &&& http_response.status == 200
            &&& http_response.header_list() == default_headers() + all_headers(database_entries@)
        },
        header_phase_len(database_entries@) < database_entries@.len() ==> {
            let k = header_phase_len(database_entries@) as int;
            let item = database_entries@[k];
            &&& item is Error && item->Error_0.status is Some ==> r is Err && r->Err_0
                == item->Error_0
            &&& header_success_owed(*templates, item) ==> r is Ok
            &&& r matches Err(e) ==> is_header_failure(*templates, item, e)
            &&& r matches Ok(response) ==> {
                &&& response matches ResponseWithWriter::RenderStream {
                    http_response,
                    renderer,
                    database_entries_stream,
                }
                &&& http_response.status == 200
                &&& http_response.header_list() == default_headers() + all_headers(
                    database_entries@.take(k),
                )
                &&& database_entries_stream@ == database_entries@.skip(k + 1)
                &&& is_first_page(renderer, *templates, Seq::empty(), item)
            }
        },
{
    let ghost all = database_entries@;
    let mut stack = reversed(database_entries);
    let mut head_context = HeaderContext::new(templates, Vec::new());
    assert(all.take(0).len() == 0);
    assert(head_context.head().header_list() == default_headers() + all_headers(all.take(0)));
    while stack.len() > 0
        invariant
            all == database_entries@,
            stack@.len() <= all.len(),
            stack@ == all.skip(all.len() - stack@.len()).reverse(),
            forall|j: int| 0 <= j < all.len() - stack@.len() ==> stays_in_header(#[trigger] all[j]),
            head_context.registry() == *templates,
            head_context.output() == Seq::<u8>::empty(),
            head_context.head().status == 200,
            head_context.head().header_list() == default_headers() + all_headers(
                all.take(all.len() - stack@.len()),
            ),
        decreases stack.len(),
    {
        let ghost k = all.len() - stack@.len();
        let item = stack.pop().unwrap();
        proof {
            assert(item == all[k]);
            assert(stack@ =~= all.skip(k + 1).reverse());
            let next = all.take(k + 1);
            assert(next.drop_last() == all.take(k));
            assert(next.last() == all[k]);
        }
        match header_step(head_context, item) {
            Ok(PageContext::Header(h)) => {
                head_context = h;
                assert(head_context.head().header_list() == default_headers() + (all_headers(
                    all.take(k),
                ) + item_headers(all[k])));
            },
            Ok(PageContext::Body { http_response, renderer }) => {
                proof {
                    lemma_header_phase_len(all, k);
                }
                let database_entries_stream = reversed(stack);
                assert(database_entries_stream@ =~= all.skip(k + 1));
                return Ok(
                    ResponseWithWriter::RenderStream {
                        http_response,
                        renderer,
                        database_entries_stream,
                    },
                );
            },
            Err(e) => {
                proof {
                    lemma_header_phase_len(all, k);
                }
                return Err(e);
            },
        }
    }
    proof {
        lemma_header_phase_len(all, all.len() as int);
        assert(all.take(all.len() as int) == all);
    }
    Ok(ResponseWithWriter::FinishedResponse { http_response: head_context.close() })
}

/// Whether the step at position `i` of a run of page states took the item
/// at that position without failing.
pub open spec fn took_item_at(states: Seq<RenderContext>, items: Seq<DbItem>, i: int) -> bool {
    is_stream_step(states[i], items[i], states[i + 1], Ok(()))
}

/// Whether `bytes` and `fatal` are what streaming `items` into the page
/// `renderer` gives, by way of the page states `states`, of `last` and of
/// `end`.
///
/// The states begin with `renderer`, and each follows the one before by the
/// step that takes the next item. Where nothing was fatal they cover all
/// items, and `last` is the state after the last item. Where a step failed
/// they stop before it: `last` is what that step left, `fatal` its error,
/// and no item after it was taken. The page was then ended: `end` is `last`
/// after its ending, and `bytes` is what it holds.
pub open spec fn is_streamed(
    states: Seq<RenderContext>,
    last: RenderContext,
    end: RenderContext,
    renderer: RenderContext,
    items: Seq<DbItem>,
    fatal: Option<Error>,
    bytes: Seq<u8>,
) -> bool {
    &&& states.len() >= 1
    &&& states[0] == renderer
    &&& forall|i: int| 0 <= i < states.len() - 1 ==> #[trigger] took_item_at(states, items, i)
    &&& match fatal {
        None => states.len() == items.len() + 1 && last == states.last(),
        Some(e) => states.len() <= items.len() && is_stream_step(
            states.last(),
            items[states.len() - 1],
            last,
            Err(e),
        ),
    }
    &&& end.is_page_ended(last)
    &&& bytes == end.output()
}

/// Renders the body of a page from the items that are left after its
/// headers were resolved, and ends the page.
///
/// The items are taken in their order, each by one step. Hands back
/// everything that was rendered. Where showing an error in the page failed,
/// rendering stopped there: the page was ended at once, and the error that
/// could not be shown comes back with it.
pub fn stream_response<'a>(database_entries: Vec<DbItem>, renderer: RenderContext<'a>) -> (r: (
    Vec<u8>,
    Option<Error>,
))
    ensures
        exists|states: Seq<RenderContext<'a>>, last: RenderContext<'a>, end: RenderContext<'a>|
            #[trigger] is_streamed(states, last, end, renderer, database_entries@, r.1, r.0@),
        renderer.output().is_prefix_of(r.0@),
        r.1 matches Some(e) ==> is_showing_failure(e, renderer.registry()),
{
    let mut page = renderer;
    let ghost all = database_entries@;
    let ghost mut states: Seq<RenderContext<'a>> = seq![renderer];
    let mut stack = reversed(database_entries);
    while stack.len() > 0
        invariant
            all == database_entries@,
            stack@.len() <= all.len(),
            stack@ == all.skip(all.len() - stack@.len()).reverse(),
            states.len() == all.len() - stack@.len() + 1,
            states[0] == renderer,
            states.last() == page,
            forall|i: int| 0 <= i < states.len() - 1 ==> #[trigger] took_item_at(states, all, i),
            renderer.output().is_prefix_of(page.output()),
            page.registry() == renderer.registry(),
        decreases stack.len(),
    {
        let ghost k = all.len() - stack@.len();
        let ghost before = page;
        let item = stack.pop().unwrap();
        proof {
            assert(item == all[k]);
            assert(stack@ =~= all.skip(k + 1).reverse());
        }
        let step = stream_step(&mut page, item);
        proof {
            lemma_prefix_transitive(renderer.output(), before.output(), page.output());
        }
        match step {
            Ok(()) => {
                proof {
                    let longer = states.push(page);
                    assert forall|i: int| 0 <= i < longer.len() - 1 implies #[trigger] took_item_at(
                        longer,
                        all,
                        i,
                    ) by {
                        if i < states.len() - 1 {
                            assert(took_item_at(states, all, i));
                            assert(longer[i] == states[i] && longer[i + 1] == states[i + 1]);
                        } else {
                            assert(longer[i] == before && longer[i + 1] == page);
                        }
                    }
                    states = longer;
                }
            },
            Err(nested_err) => {
                let ghost last = page;
                let out = page.close();
                let ghost end = choose|end: RenderContext<'a>| #[trigger]
                    end.is_page_ended(last) && out@ == end.output();
                proof {
                    lemma_prefix_transitive(renderer.output(), last.output(), out@);
                    assert(is_streamed(states, last, end, renderer, all, Some(nested_err), out@));
                }
                let r = (out, Some(nested_err));
                assert(is_streamed(states, last, end, renderer, database_entries@, r.1, r.0@));
                return r;
            },
        }
    }
    let ghost last = page;
    let out = page.close();
    let ghost end = choose|end: RenderContext<'a>| #[trigger]
        end.is_page_ended(last) && out@ == end.output();
    proof {
        lemma_prefix_transitive(renderer.output(), last.output(), out@);
        assert(is_streamed(states, last, end, renderer, all, None, out@));
    }
    let r = (out, None);
    assert(is_streamed(states, last, end, renderer, database_entries@, r.1, r.0@));
    r
}

/// A whole response that tells of an error, in place of a page.
#[derive(Debug, PartialEq, Eq)]
pub struct ErrorResponse {
    pub status: u16,
    pub headers: Vec<(String, String)>,
    /// After how many seconds the client is asked to try again, where it is
    /// asked to.
    pub retry_after: Option<u64>,
    pub body: String,
}

/// The status of the response for an error: 503 where the connection pool
/// timed out, else the status that the error carries, else 500.
pub open spec fn error_status(error: Error) -> u16 {
    if error.pool_timed_out {
        503
    } else {
        match error.status {
            Some(status) => status,
            None => 500,
        }
    }
}

/// Whether an error tells that the client has to authenticate.
pub open spec fn asks_for_login(error: Error) -> bool {
    error.status == Some(401u16)
}

/// The headers of the response for an error.
pub open spec fn error_headers(error: Error) -> Seq<(Seq<char>, Seq<char>)> {
    if asks_for_login(error) {
        seq![
            ("Content-Type"@, "text/plain"@),
            ("WWW-Authenticate"@, "Basic realm=\"Authentication required\", charset=\"UTF-8\""@),
        ]
    } else {
        seq![("Content-Type"@, "text/plain"@)]
    }
}

/// The body of the response for an error.
pub open spec fn error_body(error: Error) -> Seq<char> {
    if asks_for_login(error) {
        "Sorry, but you are not authorized to access this page."@
    } else {
        "Sorry, but we were not able to process your request. \n\nError:\n\n "@
            + error.description()
    }
}

/// The response that stands for an error that came before any part of the
/// page was sent, given the number of seconds to ask an overrun client to
/// wait.
pub fn error_response(error: &Error, retry_hint: u64) -> (r: ErrorResponse)
    ensures
        r.status == error_status(*error),
        header_texts(r.headers@) == error_headers(*error),
        r.retry_after == if error.pool_timed_out {
            Some(retry_hint)
        } else {
            None
        },
        r.body@ == error_body(*error),
{
    let unauthorized = match error.status {
        Some(status) => status == 401,
        None => false,
    };
    let mut status: u16 = match error.status {
        Some(status) => status,
        None => 500,
    };
    let mut headers: Vec<(String, String)> = Vec::new();
    headers.push(("Content-Type".to_owned(), "text/plain".to_owned()));
    let body = if unauthorized {
        headers.push(
            (
                "WWW-Authenticate".to_owned(),
                "Basic realm=\"Authentication required\", charset=\"UTF-8\"".to_owned(),
            ),
        );
        "Sorry, but you are not authorized to access this page.".to_owned()
    } else {
        String::from_str(
            "Sorry, but we were not able to process your request. \n\nError:\n\n ",
        ).concat(error.describe().as_str())
    };
    let mut retry_after: Option<u64> = None;
    if error.pool_timed_out {
        status = 503;
        retry_after = Some(retry_hint);
    }
    assert(header_texts(headers@) =~= error_headers(*error));
    ErrorResponse { status, headers, retry_after, body }
}

/// Draws a number between `low` and `high`, both included.
///
/// Calls `rand::thread_rng().gen_range(low..=high)`, which panics on an
/// empty range and otherwise samples from the range.
#[verifier::external_body]
fn random_between(low: u64, high: u64) -> (r: u64)
    requires
        low <= high,
    ensures
        low <= r <= high,
{
    rand::thread_rng().gen_range(low..=high)
}

/// The response that stands for an error that came before any part of the
/// page was sent. A client that overran the connection pool is asked to come
/// back after a random pause of one to fifteen seconds.
pub fn send_anyhow_error(error: &Error) -> (r: ErrorResponse)
    ensures
        r.status == error_status(*error),
        header_texts(r.headers@) == error_headers(*error),
        r.body@ == error_body(*error),
        error.pool_timed_out ==> (r.retry_after matches Some(seconds) && 1 <= seconds <= 15),
        !error.pool_timed_out ==> r.retry_after is None,
{
    let retry_hint = random_between(1, 15);
    error_response(error, retry_hint)
}

/// What `Path::extension` gives for a path: the part of its file name after
/// the last dot, `None` where the file name has none. Paths are read as the
/// platform that the library is built for reads them.
pub uninterp spec fn path_extension(path: Seq<char>) -> Option<Seq<char>>;

/// The path that `PathBuf::push` makes of a path and a further component,
/// with the separator of the platform that the library is built for.
pub uninterp spec fn joined_path(base: Seq<char>, child: Seq<char>) -> Seq<char>;

/// Calls `Path::extension` on a path given as text.
#[verifier::external_body]
fn extension_of(path: &str) -> (r: Option<String>)
    ensures
        match r {
            Some(ext) => path_extension(path@) == Some(ext@),
            None => path_extension(path@) is None,
        },
{
    std::path::Path::new(path).extension().map(|ext| ext.to_string_lossy().into_owned())
}

/// Calls `PathBuf::push` on a path given as text.
#[verifier::external_body]
fn join_path(base: &str, child: &str) -> (r: String)
    ensures
        r@ == joined_path(base@, child@),
{
    let mut path = std::path::PathBuf::from(base);
    path.push(child);
    path.to_string_lossy().into_owned()
}

/// The text without its first character where that is `prefix`, `None`
/// where the text starts otherwise.
fn strip_prefix_char(text: &str, prefix: char) -> (r: Option<&str>)
    ensures
        match r {
            Some(rest) => text@.len() > 0 && text@[0] == prefix && rest@ == text@.skip(1),
            None => text@.len() == 0 || text@[0] != prefix,
        },
{
    let length = text.unicode_len();
    if length > 0 && text.get_char(0) == prefix {
        let rest = text.substring_char(1, length);
        assert(rest@ == text@.skip(1));
        Some(rest)
    } else {
        None
    }
}

/// A request path without its leading slash.
pub open spec fn relative_path(path: Seq<char>) -> Seq<char> {
    if path.len() > 0 && path[0] == '/' {
        path.skip(1)
    } else {
        path
    }
}

/// The SQL file that answers a request path, if one does.
pub open spec fn sql_file_of(path: Seq<char>) -> Option<Seq<char>> {
    let relative = relative_path(path);
    match path_extension(relative) {
        None => Some(joined_path(relative, "index.sql"@)),
        Some(ext) => if ext == "sql"@ {
            Some(relative)
        } else {
            None
        },
    }
}

/// Resolves the path of a request to the path of the SQL file that answers
/// it: the path itself where it ends in `.sql`, the `index.sql` inside it
/// where it has no extension, and none where it has another extension.
pub fn path_to_sql_file(path: &str) -> (r: Option<String>)
    ensures
        match r {
            Some(file) => sql_file_of(path@) == Some(file@),
            None => sql_file_of(path@) is None,
        },
{
    let relative = match strip_prefix_char(path, '/') {
        Some(rest) => rest,
        None => path,
    };
    match extension_of(relative) {
        None => Some(join_path(relative, "index.sql")),
        Some(ext) => {
            if str_eq(ext.as_str(), "sql") {
                Some(relative.to_owned())
            } else {
                None
            }
        },
    }
}

/// Whether a character is the letter `lower`, in either case.
pub open spec fn is_letter(c: char, lower: char, upper: char) -> bool {
    c == lower || c == upper
}

/// Whether a path ends in a dot and the letters s, q, l, in any case: the
/// part after its last dot is "sql".
pub open spec fn has_sql_extension(path: Seq<char>) -> bool {
    let n = path.len() as int;
    &&& n >= 4
    &&& path[n - 4] == '.'
    &&& is_letter(path[n - 3], 's', 'S')
    &&& is_letter(path[n - 2], 'q', 'Q')
    &&& is_letter(path[n - 1], 'l', 'L')
}

/// Whether a request for a page has to be sent on to the same path with a
/// slash at its end: the path neither ends in a slash nor names an SQL file.
pub open spec fn lacks_trailing_slash(path: Seq<char>) -> bool {
    !(path.len() > 0 && path.last() == '/') && !has_sql_extension(path)
}

/// Where a request is sent on to: the path with a slash at its end, and
/// the query after a question mark, where there is one.
pub open spec fn redirect_location(path: Seq<char>, query: Option<Seq<char>>) -> Seq<char> {
    match query {
        Some(q) => path + "/"@ + "?"@ + q,
        None => path + "/"@,
    }
}

/// Decides whether a request for a page is sent on to the same path with a
/// slash at its end, and gives the place it is sent on to.
///
/// A path that ends in a slash, or that names an SQL file, is served as it
/// is.
pub fn redirect_missing_trailing_slash(path: &str, query: Option<&str>) -> (r: Option<String>)
    ensures
        match r {
            Some(location) => lacks_trailing_slash(path@) && location@ == redirect_location(
                path@,
                match query {
                    Some(q) => Some(q@),
                    None => None,
                },
            ),
            None => !lacks_trailing_slash(path@),
        },
{
    let n = path.unicode_len();
    if n > 0 && path.get_char(n - 1) == '/' {
        return None;
    }
    if n >= 4 && path.get_char(n - 4) == '.' {
        let s = path.get_char(n - 3);
        let q = path.get_char(n - 2);
        let l = path.get_char(n - 1);
        if (s == 's' || s == 'S') && (q == 'q' || q == 'Q') && (l == 'l' || l == 'L') {
            return None;
        }
    }
    let mut location = String::from_str(path).concat("/");
    match query {
        Some(q) => {
            location = location.concat("?").concat(q);
        },
        None => {},
    }
    Some(location)
}

} // verus!
