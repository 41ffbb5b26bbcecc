//! The error value of the pipeline: a message, the chain of its causes, and
//! what the HTTP layer needs to know of it.

use vstd::prelude::*;
use vstd::string::StringExecFns;

verus! {

/// What went wrong, as far as the pipeline tells errors apart.
#[derive(Debug, PartialEq, Eq, Clone, Copy)]
pub enum ErrorKind {
    /// A statement could not be parsed, bound or executed.
    Statement,
    /// A template failed while it was rendered.
    Render,
    /// No component of the requested name is known.
    ComponentNotFound,
    /// A header record that is no object, or a header value that is no string.
    InvalidHeader,
    /// A "dynamic" record without usable nested records.
    InvalidDynamic,
    /// "dynamic" records nested deeper than the recursion ceiling.
    RecursionLimit,
    /// A "set variable" statement whose target is neither a GET nor a POST variable.
    InvalidVariableTarget,
    /// No pooled connection could be acquired.
    ConnectionUnavailable,
}

/// An error with the chain of its causes.
///
/// `message` describes the error itself. `causes` lists what led to it, the
/// direct cause first and the root cause last.
#[derive(Debug, PartialEq, Eq)]
pub struct Error {
    pub kind: ErrorKind,
    pub message: String,
    pub causes: Vec<String>,
    /// The HTTP status that this error asks for, if it carries one.
    pub status: Option<u16>,
    /// True where the root of the chain is a timeout of the connection pool.
    pub pool_timed_out: bool,
}

/// The characters of each string of a sequence.
pub open spec fn texts(strings: Seq<String>) -> Seq<Seq<char>> {
    strings.map_values(|s: String| s@)
}

/// The lines that tell the causes of an error, each on a line of its own.
pub open spec fn caused_by(causes: Seq<Seq<char>>) -> Seq<char>
    decreases causes.len(),
{
    if causes.len() == 0 {
        Seq::empty()
    } else {
        caused_by(causes.drop_last()) + "\ncaused by: "@ + causes.last()
    }
}

impl Error {
    /// The causes as sequences of characters, the direct cause first.
    pub open spec fn cause_texts(self) -> Seq<Seq<char>> {
        texts(self.causes@)
    }

    /// The message followed by the causes.
    pub open spec fn chain(self) -> Seq<Seq<char>> {
        seq![self.message@] + self.cause_texts()
    }

    /// An error without causes.
    pub fn new(kind: ErrorKind, message: &str) -> (r: Error)
        ensures
            r.kind == kind,
            r.message@ == message@,
            r.causes@.len() == 0,
            r.status is None,
            !r.pool_timed_out,
    {
        Error {
            kind,
            message: message.to_owned(),
            causes: Vec::new(),
            status: None,
            pool_timed_out: false,
        }
    }

    /// An error that asks for an HTTP status of its own.
    pub fn with_status(status: u16, message: &str) -> (r: Error)
        ensures
            r.kind == ErrorKind::Statement,
            r.message@ == message@,
            r.causes@.len() == 0,
            r.status == Some(status),
            !r.pool_timed_out,
    {
        Error {
            kind: ErrorKind::Statement,
            message: message.to_owned(),
            causes: Vec::new(),
            status: Some(status),
            pool_timed_out: false,
        }
    }

    /// Wraps the error in a new message. The old message becomes the direct
    /// cause; kind, status and the pool flag stay.
    pub fn context(self, message: &str) -> (r: Error)
        ensures
            r.kind == self.kind,
            r.status == self.status,
            r.pool_timed_out == self.pool_timed_out,
            r.message@ == message@,
            r.cause_texts() == self.chain(),
    {
        let Error { kind, message: old_message, causes, status, pool_timed_out } = self;
        let mut causes = causes;
        let ghost before = texts(causes@);
        let ghost old_text = old_message@;
        causes.insert(0, old_message);
        let r = Error { kind, message: message.to_owned(), causes, status, pool_timed_out };
        assert(r.cause_texts() =~= seq![old_text] + before);
        r
    }

    /// The text that tells the whole error: its message, then its causes.
    pub open spec fn description(self) -> Seq<char> {
        self.message@ + caused_by(self.cause_texts())
    }

    /// The error as text: its message, then each cause on a line of its own.
    pub fn describe(&self) -> (r: String)
        ensures
            r@ == self.description(),
    {
        let mut text = self.message.clone();
        let mut i: usize = 0;
        assert(self.cause_texts().take(0).len() == 0);
        assert(text@ == self.message@ + caused_by(self.cause_texts().take(0)));
        while i < self.causes.len()
            invariant
                i <= self.causes.len(),
                text@ == self.message@ + caused_by(self.cause_texts().take(i as int)),
            decreases self.causes.len() - i,
        {
            text.append("\ncaused by: ");
            text.append(self.causes[i].as_str());
            proof {
                let done = self.cause_texts().take(i as int);
                let next = self.cause_texts().take(i + 1);
                assert(next.drop_last() == done);
                assert(next.last() == self.causes@[i as int]@);
                assert(text@ == self.message@ + caused_by(next));
            }
            i += 1;
        }
        assert(self.cause_texts().take(i as int) == self.cause_texts());
        text
    }

    /// A copy of the error.
    pub fn duplicate(&self) -> (r: Error)
        ensures
            r.kind == self.kind,
            r.status == self.status,
            r.pool_timed_out == self.pool_timed_out,
            r.message@ == self.message@,
            r.cause_texts() == self.cause_texts(),
    {
        let mut causes: Vec<String> = Vec::new();
        let mut i: usize = 0;
        while i < self.causes.len()
            invariant
                i <= self.causes.len(),
                causes@.len() == i,
                forall|j: int| 0 <= j < i ==> causes@[j]@ == self.causes@[j]@,
            decreases self.causes.len() - i,
        {
            causes.push(self.causes[i].clone());
            i += 1;
        }
        assert(texts(causes@) =~= texts(self.causes@));
        Error {
            kind: self.kind,
            message: self.message.clone(),
            causes,
            status: self.status,
            pool_timed_out: self.pool_timed_out,
        }
    }
}

} // verus!
