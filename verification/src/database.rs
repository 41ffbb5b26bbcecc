//! Running the statements of a page in order and turning what the database
//! answers into the items that the renderer consumes.

use crate::error::{texts, Error, ErrorKind};
use crate::http::SingleOrVec;
use crate::json::{json_text, same_json, str_eq, Json};
use vstd::prelude::*;
use vstd::string::StringExecFns;

verus! {

/// One thing that the execution of a page's statements produces.
#[derive(Debug, PartialEq)]
pub enum DbItem {
    /// A row of a result set, or a record that needs no query.
    Row(Json),
    /// The end of one statement's results.
    FinishedQuery,
    /// A statement that failed.
    Error(Error),
}

/// Where the value of a statement's parameter comes from.
#[derive(Debug, PartialEq)]
pub enum StmtParam {
    /// A variable of the URL's query string.
    Get(String),
    /// A variable of the request's body.
    Post(String),
    /// A variable of either, the query string first.
    GetOrPost(String),
    /// A cookie of the request.
    Cookie(String),
    /// A header of the request.
    Header(String),
    /// A constant.
    Literal(String),
}

/// The variables of one scope of a request, by name.
#[derive(Debug, PartialEq)]
pub struct VariableMap {
    entries: Vec<(String, SingleOrVec)>,
}

/// The value that `entries` hold for `name`: that of the last entry with this name.
pub open spec fn variable_lookup(entries: Seq<(String, SingleOrVec)>, name: Seq<char>) -> Option<
    SingleOrVec,
>
    decreases entries.len(),
{
    if entries.len() == 0 {
        None
    } else if entries.last().0@ == name {
        Some(entries.last().1)
    } else {
        variable_lookup(entries.drop_last(), name)
    }
}

proof fn lemma_lookup_absent(entries: Seq<(String, SingleOrVec)>, name: Seq<char>)
    requires
        forall|i: int| 0 <= i < entries.len() ==> (#[trigger] entries[i]).0@ != name,
    ensures
        variable_lookup(entries, name) is None,
    decreases entries.len(),
{
    if entries.len() > 0 {
        lemma_lookup_absent(entries.drop_last(), name);
    }
}

proof fn lemma_lookup_without(entries: Seq<(String, SingleOrVec)>, i: int, name: Seq<char>)
    requires
        0 <= i < entries.len(),
        entries[i].0@ != name,
    ensures
        variable_lookup(entries.remove(i), name) == variable_lookup(entries, name),
    decreases entries.len(),
{
    if i == entries.len() - 1 {
        assert(entries.remove(i) == entries.drop_last());
    } else {
        let shorter = entries.remove(i);
        assert(shorter.last() == entries.last());
        assert(shorter.drop_last() == entries.drop_last().remove(i));
        lemma_lookup_without(entries.drop_last(), i, name);
    }
}

impl VariableMap {
    /// The entries behind the map, in the order in which they were set.
    pub closed spec fn entries(self) -> Seq<(String, SingleOrVec)> {
        self.entries@
    }

    /// The value of the variable `name`, if it is set.
    pub open spec fn value_of(self, name: Seq<char>) -> Option<SingleOrVec> {
        variable_lookup(self.entries(), name)
    }

    /// A scope without variables.
    pub fn new() -> (r: Self)
        ensures
            forall|name: Seq<char>| r.value_of(name) is None,
    {
        let r = VariableMap { entries: Vec::new() };
        assert forall|name: Seq<char>| r.value_of(name) is None by {
            lemma_lookup_absent(r.entries(), name);
        }
        r
    }

    /// Reads a variable.
    pub fn get(&self, name: &str) -> (r: Option<&SingleOrVec>)
        ensures
            match r {
                Some(v) => self.value_of(name@) == Some(*v),
                None => self.value_of(name@) is None,
            },
    {
        let mut i: usize = self.entries.len();
        assert(self.entries@.take(i as int) == self.entries@);
        while i > 0
            invariant
                i <= self.entries.len(),
                variable_lookup(self.entries@, name@) == variable_lookup(
                    self.entries@.take(i as int),
                    name@,
                ),
            decreases i,
        {
            i -= 1;
            let found = str_eq(self.entries[i].0.as_str(), name);
            proof {
                let prefix = self.entries@.take(i + 1);
                assert(prefix.last() == self.entries@[i as int]);
                assert(prefix.drop_last() == self.entries@.take(i as int));
                assert(variable_lookup(prefix, name@) == if found {
                    Some(self.entries@[i as int].1)
                } else {
                    variable_lookup(self.entries@.take(i as int), name@)
                });
            }
            if found {
                return Some(&self.entries[i].1);
            }
        }
        assert(self.entries@.take(0).len() == 0);
        None
    }

    /// Clears a variable. The other variables stay as they are.
    pub fn remove(&mut self, name: &str)
        ensures
            final(self).value_of(name@) is None,
            forall|other: Seq<char>|
                other != name@ ==> final(self).value_of(other) == old(self).value_of(other),
    {
        let mut i: usize = self.entries.len();
        while i > 0
            invariant
                i <= self.entries.len(),
                forall|j: int| i <= j < self.entries@.len() ==> (#[trigger] self.entries@[j]).0@
                    != name@,
                forall|other: Seq<char>|
                    other != name@ ==> variable_lookup(self.entries@, other) == old(self).value_of(other),
            decreases i,
        {
            i -= 1;
            if str_eq(self.entries[i].0.as_str(), name) {
                let ghost before = self.entries@;
                self.entries.remove(i);
                proof {
                    assert forall|other: Seq<char>| other != name@ implies variable_lookup(
                        self.entries@,
                        other,
                    ) == old(self).value_of(other) by {
                        lemma_lookup_without(before, i as int, other);
                    }
                    assert forall|j: int| i <= j < self.entries@.len() implies (
                    #[trigger] self.entries@[j]).0@ != name@ by {
                        assert(self.entries@[j] == before[j + 1]);
                    }
                }
            }
        }
        proof {
            lemma_lookup_absent(self.entries@, name@);
        }
    }

    /// Sets a variable, in place of any value it had. The other variables
    /// stay as they are.
    pub fn insert(&mut self, name: String, value: SingleOrVec)
        ensures
            final(self).value_of(name@) == Some(value),
            forall|other: Seq<char>|
                other != name@ ==> final(self).value_of(other) == old(self).value_of(other),
    {
        self.remove(name.as_str());
        let ghost mid = self.entries@;
        self.entries.push((name, value));
        assert(self.entries@.drop_last() == mid);
    }
}

/// The variables of a request that statements may set.
#[derive(Debug, PartialEq)]
pub struct RequestInfo {
    /// The variables of the URL's query string.
    pub get_variables: VariableMap,
    /// The variables of the request's body.
    pub post_variables: VariableMap,
}

/// Whether a statement may assign to the variable that `variable` names.
pub open spec fn is_assignable(variable: StmtParam) -> bool {
    variable is Get || variable is GetOrPost || variable is Post
}

/// How a parameter is written in a message: its kind, then its name
/// between quotes and brackets.
pub open spec fn parameter_text(variable: StmtParam) -> Seq<char> {
    let kind = match variable {
        StmtParam::Get(_) => "Get"@,
        StmtParam::Post(_) => "Post"@,
        StmtParam::GetOrPost(_) => "GetOrPost"@,
        StmtParam::Cookie(_) => "Cookie"@,
        StmtParam::Header(_) => "Header"@,
        StmtParam::Literal(_) => "Literal"@,
    };
    kind + "(\""@ + target_name(variable) + "\")"@
}

/// The message of the error for a variable that cannot be assigned to.
pub open spec fn not_assignable_message(variable: StmtParam) -> Seq<char> {
    "Only GET and POST variables can be set, not "@ + parameter_text(variable)
}

/// Writes a parameter as a message names it.
fn describe_parameter(variable: &StmtParam) -> (r: String)
    ensures
        r@ == parameter_text(*variable),
{
    let (kind, name) = match variable {
        StmtParam::Get(n) => ("Get", n),
        StmtParam::Post(n) => ("Post", n),
        StmtParam::GetOrPost(n) => ("GetOrPost", n),
        StmtParam::Cookie(n) => ("Cookie", n),
        StmtParam::Header(n) => ("Header", n),
        StmtParam::Literal(n) => ("Literal", n),
    };
    String::from_str(kind).concat("(\"").concat(name.as_str()).concat("\")")
}

/// The scope and the name of the variable that a "set variable" statement
/// assigns to.
///
/// A GET variable, and one of either scope, lives in the GET scope; a POST
/// variable in the POST scope. Nothing else can be assigned to.
pub fn vars_and_name<'a>(request: &'a mut RequestInfo, variable: &StmtParam) -> (r: Result<
    (&'a mut VariableMap, String),
    Error,
>)
    ensures
        match r {
            Ok((vars, name)) => match *variable {
                StmtParam::Get(n) | StmtParam::GetOrPost(n) => {
                    &&& name@ == n@
                    &&& *vars == old(request).get_variables
                    &&& final(request).get_variables == *final(vars)
                    &&& final(request).post_variables == old(request).post_variables
                },
                StmtParam::Post(n) => {
                    &&& name@ == n@
                    &&& *vars == old(request).post_variables
                    &&& final(request).post_variables == *final(vars)
                    &&& final(request).get_variables == old(request).get_variables
                },
                _ => false,
            },
            Err(e) => {
                &&& !is_assignable(*variable)
                &&& e.kind == ErrorKind::InvalidVariableTarget
                &&& e.message@ == not_assignable_message(*variable)
                &&& e.causes@.len() == 0
                &&& e.status is None
                &&& *final(request) == *old(request)
            },
        },
{
    match variable {
        StmtParam::Get(name) | StmtParam::GetOrPost(name) => {
            let vars = &mut request.get_variables;
            Ok((vars, name.clone()))
        },
        StmtParam::Post(name) => {
            let vars = &mut request.post_variables;
            Ok((vars, name.clone()))
        },
        _ => {
            let message = String::from_str("Only GET and POST variables can be set, not ").concat(
                describe_parameter(variable).as_str(),
            );
            Err(Error::new(ErrorKind::InvalidVariableTarget, message.as_str()))
        },
    }
}

/// The message at the root of the chain of a statement that could not be
/// prepared.
pub open spec fn unprepared_message() -> Seq<char> {
    "SQLPage could not parse and prepare this SQL statement"@
}

/// A fresh error that tells what `err` tells: the same message and the same
/// causes, on top of a root cause that says that the statement could not be
/// prepared. What `err` asked of the HTTP layer is not carried over.
pub fn clone_anyhow_err(err: &Error) -> (r: Error)
    ensures
        r.kind == ErrorKind::Statement,
        r.message@ == err.message@,
        r.cause_texts() == err.cause_texts().push(unprepared_message()),
        r.status is None,
        !r.pool_timed_out,
{
    let copy = err.duplicate();
    let Error { kind: _, message, causes, status: _, pool_timed_out: _ } = copy;
    let mut causes = causes;
    let ghost before = texts(causes@);
    causes.push("SQLPage could not parse and prepare this SQL statement".to_owned());
    let r = Error { kind: ErrorKind::Statement, message, causes, status: None, pool_timed_out: false };
    assert(r.cause_texts() =~= before.push(unprepared_message()));
    r
}

/// The kinds of database that a page's statements can run on.
#[derive(Debug, PartialEq, Eq, Structural, Clone, Copy)]
pub enum DatabaseKind {
    Postgres,
    MySql,
    Sqlite,
    Mssql,
}

/// How many connections a pool opens at most where nothing is configured:
/// as many as the kind of database takes by default, and one for a database
/// that lives in memory, where a second connection would see another
/// database.
pub open spec fn default_pool_size(kind: DatabaseKind, in_memory: bool) -> u32 {
    match kind {
        DatabaseKind::Postgres => 50,
        DatabaseKind::MySql => 75,
        DatabaseKind::Sqlite => if in_memory {
            1
        } else {
            16
        },
        DatabaseKind::Mssql => 100,
    }
}

/// How many connections the pool opens at most: what is configured, else
/// the default for the kind of database.
pub fn max_connections(configured: Option<u32>, kind: DatabaseKind, in_memory: bool) -> (r: u32)
    ensures
        r == match configured {
            Some(max) => max,
            None => default_pool_size(kind, in_memory),
        },
{
    match configured {
        Some(max) => max,
        None => match kind {
            DatabaseKind::Postgres => 50,
            DatabaseKind::MySql => 75,
            DatabaseKind::Sqlite => if in_memory {
                1
            } else {
                16
            },
            DatabaseKind::Mssql => 100,
        },
    }
}

/// A statement and the sources of the values it is to be bound with.
#[derive(Debug, PartialEq)]
pub struct StmtWithParams {
    pub query: String,
    pub params: Vec<StmtParam>,
}

/// One statement of a page, as far as it was understood when the page was read.
#[derive(Debug, PartialEq)]
pub enum ParsedStatement {
    /// A statement for the database.
    StmtWithParams(StmtWithParams),
    /// A statement whose result becomes the value of a request variable.
    SetVariable { variable: StmtParam, value: StmtWithParams },
    /// A statement whose one row is known without asking the database.
    StaticSimpleSelect(Json),
    /// A statement that could not be understood.
    Error(Error),
}

/// The statements of a page, in their order.
#[derive(Debug, PartialEq)]
pub struct ParsedSqlFile {
    pub statements: Vec<ParsedStatement>,
}

/// The decimal digit `d` as a character.
pub open spec fn digit_char(d: nat) -> char {
    if d == 0 {
        '0'
    } else if d == 1 {
        '1'
    } else if d == 2 {
        '2'
    } else if d == 3 {
        '3'
    } else if d == 4 {
        '4'
    } else if d == 5 {
        '5'
    } else if d == 6 {
        '6'
    } else if d == 7 {
        '7'
    } else if d == 8 {
        '8'
    } else {
        '9'
    }
}

/// A number in decimal notation.
pub open spec fn decimal_text(n: nat) -> Seq<char>
    decreases n,
{
    if n < 10 {
        seq![digit_char(n)]
    } else {
        decimal_text(n / 10).push(digit_char(n % 10))
    }
}

fn digit_str(d: u32) -> (r: &'static str)
    requires
        d < 10,
    ensures
        r@ == seq![digit_char(d as nat)],
{
    proof {
        reveal_strlit("0");
        reveal_strlit("1");
        reveal_strlit("2");
        reveal_strlit("3");
        reveal_strlit("4");
        reveal_strlit("5");
        reveal_strlit("6");
        reveal_strlit("7");
        reveal_strlit("8");
        reveal_strlit("9");
    }
    let r = if d == 0 {
        "0"
    } else if d == 1 {
        "1"
    } else if d == 2 {
        "2"
    } else if d == 3 {
        "3"
    } else if d == 4 {
        "4"
    } else if d == 5 {
        "5"
    } else if d == 6 {
        "6"
    } else if d == 7 {
        "7"
    } else if d == 8 {
        "8"
    } else {
        "9"
    };
    assert(r@ =~= seq![digit_char(d as nat)]);
    r
}

/// Appends a number in decimal notation to a text.
pub fn push_decimal(text: &mut String, n: u32)
    ensures
        final(text)@ == old(text)@ + decimal_text(n as nat),
    decreases n,
{
    if n >= 10 {
        push_decimal(text, n / 10);
    }
    text.append(digit_str(n % 10));
    assert(final(text)@ =~= old(text)@ + decimal_text(n as nat));
}

/// The message of the error for a connection that could not be acquired.
pub open spec fn busy_message(pool_size: u32, pool_max: u32) -> Seq<char> {
    "Unable to acquire a database connection to execute the SQL file. All of the "@
        + decimal_text(pool_size as nat) + " connections of a pool of at most "@ + decimal_text(
        pool_max as nat,
    ) + " are busy."@
}

/// The error for a pooled connection that could not be acquired: it tells
/// the pool's size and its limit, on top of what the pool reported.
pub fn connection_error(error: Error, pool_size: u32, pool_max: u32) -> (r: Error)
    ensures
        r.kind == ErrorKind::ConnectionUnavailable,
        r.message@ == busy_message(pool_size, pool_max),
        r.cause_texts() == error.chain(),
        r.status == error.status,
        r.pool_timed_out == error.pool_timed_out,
{
    let mut message = String::from_str(
        "Unable to acquire a database connection to execute the SQL file. All of the ",
    );
    push_decimal(&mut message, pool_size);
    message.append(" connections of a pool of at most ");
    push_decimal(&mut message, pool_max);
    message.append(" are busy.");
    let wrapped = error.context(message.as_str());
    Error {
        kind: ErrorKind::ConnectionUnavailable,
        message: wrapped.message,
        causes: wrapped.causes,
        status: wrapped.status,
        pool_timed_out: wrapped.pool_timed_out,
    }
}

/// The message on top of an error that the driver reported for a statement.
pub open spec fn failed_statement_message() -> Seq<char> {
    "Failed to execute SQL statement"@
}

/// What the driver answers to a statement, one answer at a time.
#[derive(Debug, PartialEq)]
pub enum QueryResult {
    /// A row of a result set.
    Row(Json),
    /// The end of the results of one query.
    Done,
}

/// Turns one answer of the driver into an item.
///
/// A row becomes a row, the end of a query's results the end of a query. An
/// error is wrapped: on top of it stands the text of the statement that
/// failed, and on top of that a message that says that a statement failed.
pub fn parse_single_sql_result(sql: &str, res: Result<QueryResult, Error>) -> (r: DbItem)
    ensures
        match res {
            Ok(QueryResult::Row(row)) => r == DbItem::Row(row),
            Ok(QueryResult::Done) => r == DbItem::FinishedQuery,
            Err(e) => {
                &&& r matches DbItem::Error(wrapped)
                &&& wrapped.message@ == failed_statement_message()
                &&& wrapped.cause_texts() == seq![sql@] + e.chain()
                &&& wrapped.kind == e.kind
                &&& wrapped.status == e.status
                &&& wrapped.pool_timed_out == e.pool_timed_out
            },
        },
{
    match res {
        Ok(QueryResult::Row(row)) => DbItem::Row(row),
        Ok(QueryResult::Done) => DbItem::FinishedQuery,
        Err(err) => {
            let wrapped = err.context(sql).context("Failed to execute SQL statement");
            DbItem::Error(wrapped)
        },
    }
}

/// The text that an item of an array-shaped value becomes: the characters
/// of a string, the JSON text of anything else.
pub open spec fn element_text(item: Json) -> Seq<char> {
    match item {
        Json::String(s) => s@,
        other => json_text(other),
    }
}

/// Whether `value` is what the first column of a row gives to a variable.
///
/// A string is taken as it is. An array becomes a list of strings: its
/// strings as they are, its other items as JSON text. Every other value is
/// taken as its JSON text. A row without columns gives the empty string.
pub open spec fn is_variable_value(column: Option<Json>, value: SingleOrVec) -> bool {
    match column {
        None => value is Single && value.items() == seq![Seq::<char>::empty()],
        Some(Json::String(s)) => value is Single && value.items() == seq![s@],
        Some(Json::Array(items)) => value is Vec && value.items() == items@.map_values(
            |item: Json| element_text(item),
        ),
        Some(other) => value is Single && value.items() == seq![json_text(other)],
    }
}

/// The value that the first column of a row gives to a variable.
pub fn row_to_varvalue(column: Option<Json>) -> (r: SingleOrVec)
    ensures
        is_variable_value(column, r),
{
    match column {
        None => {
            let r = SingleOrVec::Single(String::new());
            assert(r.items() =~= seq![Seq::<char>::empty()]);
            r
        },
        Some(Json::String(s)) => SingleOrVec::Single(s),
        Some(Json::Array(items)) => {
            let mut texts_of_items: Vec<String> = Vec::new();
            let mut i: usize = 0;
            while i < items.len()
                invariant
                    i <= items.len(),
                    texts_of_items@.len() == i,
                    forall|j: int|
                        0 <= j < i ==> (#[trigger] texts_of_items@[j])@ == element_text(items@[j]),
                decreases items.len() - i,
            {
                let text = match &items[i] {
                    Json::String(s) => s.clone(),
                    other => other.to_text(),
                };
                texts_of_items.push(text);
                i += 1;
            }
            let r = SingleOrVec::Vec(texts_of_items);
            assert(r.items() =~= items@.map_values(|item: Json| element_text(item)));
            r
        },
        Some(other) => {
            let text = other.to_text();
            let r = SingleOrVec::Single(text);
            assert(r.items() =~= seq![json_text(other)]);
            r
        },
    }
}

/// Where the execution of a page's statements stands.
#[derive(Debug, PartialEq, Eq, Structural, Clone, Copy)]
pub enum Phase {
    /// Between two statements.
    Idle,
    /// The results of a statement are being fetched.
    Executing,
    /// The value of a "set variable" statement is awaited.
    SettingVariable,
    /// Nothing is left to do.
    Finished,
}

/// What happened since the last action.
#[derive(Debug, PartialEq)]
pub enum Event {
    /// The last action is done and nothing is to be reported.
    Resume,
    /// The driver returned a row of the statement that is executing.
    Row(Json),
    /// The driver reported the end of one query's results.
    QueryDone,
    /// The driver failed in the middle of the statement's results.
    DriverError(Error),
    /// The driver has no more results for the statement.
    EndOfResults,
    /// A "set variable" statement returned a row; this is its first column,
    /// if it has one.
    Variable(Option<Json>),
    /// A "set variable" statement returned no row.
    NoRow,
    /// The statement could not be bound or executed at all.
    Failed(Error),
    /// No connection could be acquired from the pool, which holds
    /// `pool_size` connections of at most `pool_max`.
    ConnectionFailed { error: Error, pool_size: u32, pool_max: u32 },
}

/// What is to be done next.
pub enum Action<'a> {
    /// Bind and execute `statement`, then report what the driver returns,
    /// one result at a time. Acquire the page's connection first where
    /// `acquire_connection` is set, and keep it for the statements to come.
    Execute { statement: &'a StmtWithParams, acquire_connection: bool },
    /// Ask the driver for the next result of the statement that is executing.
    FetchNext,
    /// Bind and execute `value` and report its first row, or that it has none.
    SetVariable { value: &'a StmtWithParams, acquire_connection: bool },
    /// Hand `item` to the consumer. It comes from the statement at `position`.
    Yield { position: usize, item: DbItem },
    /// Stop: every statement was run, or the page cannot go on.
    Finished,
}

/// The execution of the statements of one page for one request.
///
/// The statements are run in their order over one connection, which is
/// acquired when the first statement needs it and kept from then on. This
/// value decides what is done next; the caller does it and reports what
/// happened.
pub struct QueryStream<'a> {
    statements: &'a Vec<ParsedStatement>,
    position: usize,
    phase: Phase,
    connected: bool,
}

/// The state of a [`QueryStream`].
pub struct StreamState {
    pub statements: Seq<ParsedStatement>,
    /// The position of the statement that is running or will run next.
    pub position: nat,
    pub phase: Phase,
    /// Whether the page's connection was acquired.
    pub connected: bool,
}

impl StreamState {
    /// The phase fits the statement at the position.
    pub open spec fn wf(self) -> bool {
        &&& self.position <= self.statements.len()
        &&& self.phase == Phase::Executing ==> self.position < self.statements.len()
            && self.statements[self.position as int] is StmtWithParams
        &&& self.phase == Phase::SettingVariable ==> self.position < self.statements.len()
            && self.statements[self.position as int] is SetVariable
    }

    /// The state between two statements, before the statement at `position`.
    pub open spec fn at(self, position: nat, connected: bool) -> StreamState {
        StreamState { statements: self.statements, position, phase: Phase::Idle, connected }
    }

    /// The state after the page has stopped.
    pub open spec fn stopped(self, connected: bool) -> StreamState {
        StreamState {
            statements: self.statements,
            position: self.position,
            phase: Phase::Finished,
            connected,
        }
    }
}

/// Whether `copy` tells what the statement's own error `e` tells.
pub open spec fn is_unprepared_copy(e: Error, copy: Error) -> bool {
    &&& copy.kind == ErrorKind::Statement
    &&& copy.message@ == e.message@
    &&& copy.cause_texts() == e.cause_texts().push(unprepared_message())
    &&& copy.status is None
    &&& !copy.pool_timed_out
}

/// Whether `after` and `action` are what taking up the statement at the
/// position of the idle state `before` gives.
///
/// A statement for the database is to be executed, with a connection to be
/// acquired unless there is one. A statement that needs no query, and one
/// that could not be understood, yield their one item at once. After the
/// last statement the page is finished.
pub open spec fn starts(before: StreamState, after: StreamState, action: Action) -> bool {
    &&& after.statements == before.statements
    &&& after.connected == before.connected
    &&& if before.position >= before.statements.len() {
        &&& after.phase == Phase::Finished
        &&& after.position == before.position
        &&& action is Finished
    } else {
        match before.statements[before.position as int] {
            ParsedStatement::StmtWithParams(s) => {
                &&& after.phase == Phase::Executing
                &&& after.position == before.position
                &&& action matches Action::Execute { statement, acquire_connection }
                &&& *statement == s
                &&& acquire_connection == !before.connected
            },
            ParsedStatement::SetVariable { variable, value } => {
                &&& after.phase == Phase::SettingVariable
                &&& after.position == before.position
                &&& action matches Action::SetVariable { value: v, acquire_connection }
                &&& *v == value
                &&& acquire_connection == !before.connected
            },
            ParsedStatement::StaticSimpleSelect(row) => {
                &&& after.phase == Phase::Idle
                &&& after.position == before.position + 1
                &&& action matches Action::Yield { position, item }
                &&& position == before.position
                &&& item matches DbItem::Row(copy)
                &&& same_json(row, copy)
            },
            ParsedStatement::Error(e) => {
                &&& after.phase == Phase::Idle
                &&& after.position == before.position + 1
                &&& action matches Action::Yield { position, item }
                &&& position == before.position
                &&& item matches DbItem::Error(copy)
                &&& is_unprepared_copy(e, copy)
            },
        }
    }
}

/// The name of the variable that a parameter refers to.
pub open spec fn target_name(variable: StmtParam) -> Seq<char> {
    match variable {
        StmtParam::Get(n) => n@,
        StmtParam::Post(n) => n@,
        StmtParam::GetOrPost(n) => n@,
        StmtParam::Cookie(n) => n@,
        StmtParam::Header(n) => n@,
        StmtParam::Literal(n) => n@,
    }
}

/// The scope that an assignment to `variable` writes to: the POST scope for
/// a POST variable, the GET scope for every other.
pub open spec fn target_scope(request: RequestInfo, variable: StmtParam) -> VariableMap {
    if variable is Post {
        request.post_variables
    } else {
        request.get_variables
    }
}

/// Whether `after` is `before` with the variable that `variable` names set
/// to what the first column of `row` gives, or cleared where there was no row.
pub open spec fn assigns(
    before: RequestInfo,
    after: RequestInfo,
    variable: StmtParam,
    row: Option<Option<Json>>,
) -> bool {
    &&& is_assignable(variable)
    &&& variable is Post ==> after.get_variables == before.get_variables
    &&& !(variable is Post) ==> after.post_variables == before.post_variables
    &&& forall|other: Seq<char>|
        other != target_name(variable) ==> #[trigger] target_scope(after, variable).value_of(
            other,
        ) == target_scope(before, variable).value_of(other)
    &&& match row {
        Some(column) => target_scope(after, variable).value_of(target_name(variable)) matches Some(
            v,
        ) && is_variable_value(column, v),
        None => target_scope(after, variable).value_of(target_name(variable)) is None,
    }
}

/// Whether an error stops the page as it is reported: as the one item that
/// is left to yield.
pub open spec fn stops_with(before: StreamState, after: StreamState, action: Action, e: Error) -> bool {
    &&& after == before.stopped(before.connected)
    &&& action matches Action::Yield { position, item }
    &&& position == before.position
    &&& item == DbItem::Error(e)
}

/// The transitions of a [`QueryStream`]: whether `after`, `vars_after` and
/// `action` are what `event` leads to from `before` and `vars_before`.
pub open spec fn is_step(
    before: StreamState,
    vars_before: RequestInfo,
    event: Event,
    after: StreamState,
    vars_after: RequestInfo,
    action: Action,
) -> bool {
    match before.phase {
        Phase::Finished => after == before && vars_after == vars_before && action is Finished,
        Phase::Idle => vars_after == vars_before && starts(before, after, action),
        Phase::Executing => {
            let sql = before.statements[before.position as int]->StmtWithParams_0.query@;
            &&& vars_after == vars_before
            &&& match event {
                Event::Row(row) => {
                    &&& after == (StreamState { connected: true, ..before })
                    &&& action matches Action::Yield { position, item }
                    &&& position == before.position
                    &&& item == DbItem::Row(row)
                },
                Event::QueryDone => {
                    &&& after == (StreamState { connected: true, ..before })
                    &&& action matches Action::Yield { position, item }
                    &&& position == before.position
                    &&& item == DbItem::FinishedQuery
                },
                Event::DriverError(e) => {
                    &&& after == before.at(before.position + 1, true)
                    &&& action matches Action::Yield { position, item }
                    &&& position == before.position
                    &&& item matches DbItem::Error(wrapped)
                    &&& wrapped.message@ == failed_statement_message()
                    &&& wrapped.cause_texts() == seq![sql] + e.chain()
                    &&& wrapped.kind == e.kind
                    &&& wrapped.status == e.status
                    &&& wrapped.pool_timed_out == e.pool_timed_out
                },
                Event::EndOfResults => starts(before.at(before.position + 1, true), after, action),
                Event::Failed(e) => stops_with(before, after, action, e),
                Event::ConnectionFailed { error, pool_size, pool_max } => {
                    &&& after == before.stopped(before.connected)
                    &&& action matches Action::Yield { position, item }
                    &&& position == before.position
                    &&& item matches DbItem::Error(e)
                    &&& e.kind == ErrorKind::ConnectionUnavailable
                    &&& e.message@ == busy_message(pool_size, pool_max)
                    &&& e.cause_texts() == error.chain()
                    &&& e.status == error.status
                    &&& e.pool_timed_out == error.pool_timed_out
                },
                _ => after == before && action is FetchNext,
            }
        },
        Phase::SettingVariable => {
            let variable = before.statements[before.position as int]->SetVariable_variable;
            let value = before.statements[before.position as int]->SetVariable_value;
            match event {
                Event::Variable(_) | Event::NoRow => {
                    let row = match event {
                        Event::Variable(column) => Some(column),
                        _ => None,
                    };
                    if is_assignable(variable) {
                        &&& assigns(vars_before, vars_after, variable, row)
                        &&& starts(before.at(before.position + 1, true), after, action)
                    } else {
                        &&& vars_after == vars_before
                        &&& after == before.stopped(true)
                        &&& action matches Action::Yield { position, item }
                        &&& position == before.position
                        &&& item matches DbItem::Error(e)
                        &&& e.kind == ErrorKind::InvalidVariableTarget
                        &&& e.message@ == not_assignable_message(variable)
                    }
                },
                Event::Failed(e) => vars_after == vars_before && stops_with(
                    before,
                    after,
                    action,
                    e,
                ),
                Event::ConnectionFailed { error, pool_size, pool_max } => {
                    &&& vars_after == vars_before
                    &&& after == before.stopped(before.connected)
                    &&& action matches Action::Yield { position, item }
                    &&& position == before.position
                    &&& item matches DbItem::Error(e)
                    &&& e.kind == ErrorKind::ConnectionUnavailable
                    &&& e.message@ == busy_message(pool_size, pool_max)
                    &&& e.cause_texts() == error.chain()
                    &&& e.status == error.status
                    &&& e.pool_timed_out == error.pool_timed_out
                },
                _ => {
                    &&& vars_after == vars_before
                    &&& after == before
                    &&& action matches Action::SetVariable { value: v, acquire_connection }
                    &&& *v == value
                    &&& acquire_connection == !before.connected
                },
            }
        },
    }
}

impl<'a> View for QueryStream<'a> {
    type V = StreamState;

    closed spec fn view(&self) -> StreamState {
        StreamState {
            statements: self.statements@,
            position: self.position as nat,
            phase: self.phase,
            connected: self.connected,
        }
    }
}

impl<'a> QueryStream<'a> {
    #[verifier::type_invariant]
    spec fn inv(self) -> bool {
        self@.wf()
    }

    /// The execution of `statements`, before the first of them.
    pub fn new(statements: &'a Vec<ParsedStatement>) -> (r: Self)
        ensures
            r@ == (StreamState {
                statements: statements@,
                position: 0,
                phase: Phase::Idle,
                connected: false,
            }),
            r@.wf(),
    {
        QueryStream { statements, position: 0, phase: Phase::Idle, connected: false }
    }

    /// Takes up the statement at `position`.
    fn start(&mut self, position: usize, connected: bool) -> (action: Action<'a>)
        requires
            position <= old(self)@.statements.len(),
        ensures
            starts(old(self)@.at(position as nat, connected), final(self)@, action),
            final(self)@.wf(),
    {
        let statements = self.statements;
        if position >= statements.len() {
            *self = QueryStream { statements, position, phase: Phase::Finished, connected };
            return Action::Finished;
        }
        match &statements[position] {
            ParsedStatement::StmtWithParams(statement) => {
                *self = QueryStream { statements, position, phase: Phase::Executing, connected };
                Action::Execute { statement, acquire_connection: !connected }
            },
            ParsedStatement::SetVariable { variable: _, value } => {
                *self = QueryStream {
                    statements,
                    position,
                    phase: Phase::SettingVariable,
                    connected,
                };
                Action::SetVariable { value, acquire_connection: !connected }
            },
            ParsedStatement::StaticSimpleSelect(row) => {
                *self = QueryStream {
                    statements,
                    position: position + 1,
                    phase: Phase::Idle,
                    connected,
                };
                Action::Yield { position, item: DbItem::Row(row.duplicate()) }
            },
            ParsedStatement::Error(e) => {
                *self = QueryStream {
                    statements,
                    position: position + 1,
                    phase: Phase::Idle,
                    connected,
                };
                Action::Yield { position, item: DbItem::Error(clone_anyhow_err(e)) }
            },
        }
    }

    /// Stops the page.
    fn stop(&mut self, connected: bool)
        ensures
            final(self)@ == old(self)@.stopped(connected),
            final(self)@.wf(),
    {
        proof {
            use_type_invariant(&*self);
        }
        *self = QueryStream {
            statements: self.statements,
            position: self.position,
            phase: Phase::Finished,
            connected,
        };
    }

    /// Takes what happened since the last action and decides what is done
    /// next.
    ///
    /// The first event of a page is `Resume`. After `Execute` and `FetchNext`
    /// the event is what the driver returned; after `SetVariable` it is the
    /// first row or its absence; after `Yield` it is `Resume`. A failure to
    /// bind, to connect or to execute is reported in place of a result. An
    /// event that does not answer the last action repeats that action.
    pub fn step(&mut self, request: &mut RequestInfo, event: Event) -> (action: Action<'a>)
        ensures
            is_step(old(self)@, *old(request), event, final(self)@, *final(request), action),
            old(self)@.wf(),
            final(self)@.wf(),
    {
        proof {
            use_type_invariant(&*self);
        }
        let statements = self.statements;
        let position = self.position;
        let connected = self.connected;
        let count = statements.len();
        assert(position <= count);
        match self.phase {
            Phase::Finished => Action::Finished,
            Phase::Idle => self.start(position, connected),
            Phase::Executing => {
                match event {
                    Event::Row(row) => {
                        *self = QueryStream {
                            statements,
                            position,
                            phase: Phase::Executing,
                            connected: true,
                        };
                        Action::Yield { position, item: DbItem::Row(row) }
                    },
                    Event::QueryDone => {
                        *self = QueryStream {
                            statements,
                            position,
                            phase: Phase::Executing,
                            connected: true,
                        };
                        Action::Yield { position, item: DbItem::FinishedQuery }
                    },
                    Event::DriverError(e) => {
                        let item = match &statements[position] {
                            ParsedStatement::StmtWithParams(statement) => parse_single_sql_result(
                                statement.query.as_str(),
                                Err(e),
                            ),
                            _ => DbItem::Error(e),
                        };
                        *self = QueryStream {
                            statements,
                            position: position + 1,
                            phase: Phase::Idle,
                            connected: true,
                        };
                        Action::Yield { position, item }
                    },
                    Event::EndOfResults => self.start(position + 1, true),
                    Event::Failed(e) => {
                        self.stop(connected);
                        Action::Yield { position, item: DbItem::Error(e) }
                    },
                    Event::ConnectionFailed { error, pool_size, pool_max } => {
                        self.stop(connected);
                        Action::Yield {
                            position,
                            item: DbItem::Error(connection_error(error, pool_size, pool_max)),
                        }
                    },
                    _ => Action::FetchNext,
                }
            },
            Phase::SettingVariable => {
                match &statements[position] {
                    ParsedStatement::SetVariable { variable, value } => {
                        match event {
                            Event::Variable(column) => {
                                match vars_and_name(request, variable) {
                                    Ok((vars, name)) => {
                                        vars.insert(name, row_to_varvalue(column));
                                        self.start(position + 1, true)
                                    },
                                    Err(e) => {
                                        self.stop(true);
                                        Action::Yield { position, item: DbItem::Error(e) }
                                    },
                                }
                            },
                            Event::NoRow => {
                                match vars_and_name(request, variable) {
                                    Ok((vars, name)) => {
                                        vars.remove(name.as_str());
                                        self.start(position + 1, true)
                                    },
                                    Err(e) => {
                                        self.stop(true);
                                        Action::Yield { position, item: DbItem::Error(e) }
                                    },
                                }
                            },
                            Event::Failed(e) => {
                                self.stop(connected);
                                Action::Yield { position, item: DbItem::Error(e) }
                            },
                            Event::ConnectionFailed { error, pool_size, pool_max } => {
                                self.stop(connected);
                                Action::Yield {
                                    position,
                                    item: DbItem::Error(
                                        connection_error(error, pool_size, pool_max),
                                    ),
                                }
                            },
                            _ => Action::SetVariable { value, acquire_connection: !connected },
                        }
                    },
                    _ => Action::Finished,
                }
            },
        }
    }
}

/// Whether the four sequences tell a run of a [`QueryStream`]: each state
/// leads to the next by the event and the action at its position.
pub open spec fn is_run(
    states: Seq<StreamState>,
    vars: Seq<RequestInfo>,
    events: Seq<Event>,
    actions: Seq<Action>,
) -> bool {
    &&& states.len() == events.len() + 1
    &&& vars.len() == events.len() + 1
    &&& actions.len() == events.len()
    &&& states[0].wf()
    &&& forall|i: int| 0 <= i < events.len() ==> #[trigger] step_at(states, vars, events, actions, i)
}

/// Whether the step at position `i` of the four sequences is a step of a
/// [`QueryStream`].
pub open spec fn step_at(
    states: Seq<StreamState>,
    vars: Seq<RequestInfo>,
    events: Seq<Event>,
    actions: Seq<Action>,
    i: int,
) -> bool {
    is_step(states[i], vars[i], events[i], states[i + 1], vars[i + 1], actions[i])
}

/// One step never goes back to an earlier statement, and what it yields
/// comes from a statement between the one it found and the one it leaves.
pub proof fn lemma_step_moves_forward(
    before: StreamState,
    vars_before: RequestInfo,
    event: Event,
    after: StreamState,
    vars_after: RequestInfo,
    action: Action,
)
    requires
        before.wf(),
        is_step(before, vars_before, event, after, vars_after, action),
    ensures
        after.wf(),
        after.statements == before.statements,
        before.position <= after.position,
        action matches Action::Yield { position, item } ==> before.position <= position
            <= after.position,
        before.connected ==> after.connected,
{
}

/// Along a run the position never decreases.
pub proof fn lemma_run_moves_forward(
    states: Seq<StreamState>,
    vars: Seq<RequestInfo>,
    events: Seq<Event>,
    actions: Seq<Action>,
    i: int,
    j: int,
)
    requires
        is_run(states, vars, events, actions),
        0 <= i <= j <= events.len(),
    ensures
        states[i].wf(),
        states[j].wf(),
        states[i].position <= states[j].position,
    decreases j,
{
    if j == 0 {
    } else if i == j {
        lemma_run_moves_forward(states, vars, events, actions, 0, j - 1);
        assert(step_at(states, vars, events, actions, j - 1));
        lemma_step_moves_forward(
            states[j - 1],
            vars[j - 1],
            events[j - 1],
            states[j],
            vars[j],
            actions[j - 1],
        );
    } else {
        lemma_run_moves_forward(states, vars, events, actions, i, j - 1);
        assert(step_at(states, vars, events, actions, j - 1));
        lemma_step_moves_forward(
            states[j - 1],
            vars[j - 1],
            events[j - 1],
            states[j],
            vars[j],
            actions[j - 1],
        );
    }
}

/// Items are yielded in the order of the statements: of two items of a run,
/// the earlier one comes from a statement that is not after the statement of
/// the later one. Within one statement every row that the driver returns is
/// yielded at once, as the step's own item, so that rows keep the driver's
/// order.
pub proof fn lemma_items_in_statement_order(
    states: Seq<StreamState>,
    vars: Seq<RequestInfo>,
    events: Seq<Event>,
    actions: Seq<Action>,
    i: int,
    j: int,
)
    requires
        is_run(states, vars, events, actions),
        0 <= i < j < events.len(),
        actions[i] is Yield,
        actions[j] is Yield,
    ensures
        actions[i]->Yield_position <= actions[j]->Yield_position,
        states[i].phase == Phase::Executing && events[i] is Row ==> actions[i]->Yield_item
            == DbItem::Row(events[i]->Row_0),
{
    lemma_run_moves_forward(states, vars, events, actions, 0, i);
    lemma_run_moves_forward(states, vars, events, actions, i + 1, j);
    assert(step_at(states, vars, events, actions, i));
    assert(step_at(states, vars, events, actions, j));
    lemma_step_moves_forward(states[i], vars[i], events[i], states[i + 1], vars[i + 1], actions[i]);
    lemma_step_moves_forward(states[j], vars[j], events[j], states[j + 1], vars[j + 1], actions[j]);
}

/// A statement that fails while its results are fetched does not stop the
/// page: its error is yielded as an item, and the step after it takes up the
/// next statement, with the same connection.
pub proof fn lemma_failed_statement_goes_on(
    before: StreamState,
    vars: RequestInfo,
    e: Error,
    failed: StreamState,
    vars_failed: RequestInfo,
    yielded: Action,
    after: StreamState,
    vars_after: RequestInfo,
    next: Action,
)
    requires
        before.wf(),
        before.phase == Phase::Executing,
        is_step(before, vars, Event::DriverError(e), failed, vars_failed, yielded),
        is_step(failed, vars_failed, Event::Resume, after, vars_after, next),
    ensures
        yielded matches Action::Yield { position, item } && position == before.position
            && item is Error,
        vars_after == vars,
        starts(before.at(before.position + 1, true), after, next),
        before.position + 1 < before.statements.len() ==> !(next is Finished),
{
}

} // verus!
