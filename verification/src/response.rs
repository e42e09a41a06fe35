//! What to answer to a request for the queue.

use crate::fallback::fallback_table;
use crate::query::{jobs_after, jobs_of, table_view, text_of, QueryResult};
use crate::table::{JobTable, Table};
use crate::text::same_text;
use std::collections::BTreeMap;
use vstd::prelude::*;

verus! {

/// The form in which a request wants the answer.
#[derive(Clone, Copy, Debug, PartialEq, Eq, Structural)]
pub enum Format {
    /// As JSON: `json`, and what a request without a format gets.
    Json,
    /// As a page: `html`.
    Html,
    /// Anything else.
    Other,
}

/// What went wrong with a request.
#[derive(Clone, Copy, Debug, PartialEq, Eq, Structural)]
pub enum ErrorKind {
    /// The query tool ran and reported failure.
    ToolFailure,
    /// The request asked for a format that is neither `json` nor `html`.
    UnknownFormat,
}

/// The answer to a request. Every answer is sent with the status
/// [`STATUS`]; an error shows in the body only.
#[derive(Debug)]
pub enum Response {
    /// A JSON body: the jobs, as the text to send.
    Jobs(String),
    /// A JSON body: an object whose one member `error` holds the message of
    /// the error.
    Error(ErrorKind),
    /// The page of the jobs, to be rendered from these.
    JobsPage(JobTable),
    /// The page that reports a failure.
    ErrorPage,
}

/// What a [`Response`] stands for, variant by variant.
pub enum Reply {
    /// A JSON body with this text.
    Jobs(Seq<char>),
    /// A JSON body that reports this error.
    Error(ErrorKind),
    /// The page of these jobs.
    JobsPage(Table),
    /// The page that reports a failure.
    ErrorPage,
}

impl View for Response {
    type V = Reply;

    open spec fn view(&self) -> Reply {
        match self {
            Response::Jobs(text) => Reply::Jobs(text@),
            Response::Error(kind) => Reply::Error(*kind),
            Response::JobsPage(table) => Reply::JobsPage(table@),
            Response::ErrorPage => Reply::ErrorPage,
        }
    }
}

/// The status of every answer.
pub const STATUS: u16 = 200;

/// The page of the jobs.
pub const JOBS_PAGE: &'static str = "squeue";

/// The page that reports a failure.
pub const ERROR_PAGE: &'static str = "error";

/// The JSON text of a table of jobs: one object with a member for each job,
/// named by its key, whose value is an object with a member for each field,
/// named by the field, whose value is the field's value as a string.
pub uninterp spec fn json_text(jobs: Table) -> Seq<char>;

/// Serialises `jobs` with `serde_json::to_string`, as a map of maps in the
/// order of their keys. The contract names the outcome, which depends on
/// what `jobs` holds and on nothing else. Serialising fails only for a map
/// whose keys are not strings or a value that refuses; neither occurs here.
#[verifier::external_body]
fn to_json(jobs: &JobTable) -> (text: String)
    ensures
        text@ == json_text(jobs@),
{
    let table: BTreeMap<&str, BTreeMap<&str, &str>> = jobs.entries().iter().map(
        |(id, job)| {
            (id.as_str(), job.entries().iter().map(|(k, v)| (k.as_str(), v.as_str())).collect())
        },
    ).collect();
    serde_json::to_string(&table).unwrap_or_default()
}

/// The format that a request with the format name `name` asks for.
pub open spec fn format_named(name: Option<Seq<char>>) -> Format {
    match name {
        None => Format::Json,
        Some(name) => if name == "json"@ {
            Format::Json
        } else if name == "html"@ {
            Format::Html
        } else {
            Format::Other
        },
    }
}

/// The answer in the form `format` when the jobs to show are `jobs`, or when
/// there are none because the query failed. An unknown format is an error
/// whatever became of the query.
pub open spec fn reply_to(format: Format, jobs: Option<Table>) -> Reply {
    match format {
        Format::Other => Reply::Error(ErrorKind::UnknownFormat),
        Format::Json => match jobs {
            Some(table) => Reply::Jobs(json_text(table)),
            None => Reply::Error(ErrorKind::ToolFailure),
        },
        Format::Html => match jobs {
            Some(table) => Reply::JobsPage(table),
            None => Reply::ErrorPage,
        },
    }
}

/// The answer to a request with the format name `name` after the query
/// ended with `result`.
pub open spec fn answer_to(name: Option<Seq<char>>, result: QueryResult) -> Reply {
    reply_to(format_named(name), jobs_after(result))
}

/// The message of `kind`.
pub open spec fn message_of(kind: ErrorKind) -> Seq<char> {
    match kind {
        ErrorKind::ToolFailure => "squeue failed"@,
        ErrorKind::UnknownFormat => "unknown format"@,
    }
}

/// The name of the page that `reply` is rendered from, if it is a page.
pub open spec fn page_of(reply: Reply) -> Option<Seq<char>> {
    match reply {
        Reply::JobsPage(_) => Some(JOBS_PAGE@),
        Reply::ErrorPage => Some(ERROR_PAGE@),
        _ => None,
    }
}

/// A request for a format that is neither `json` nor `html` is answered
/// with the unknown-format error, however the query ended.
pub proof fn law_unknown_format(name: Seq<char>, result: QueryResult)
    requires
        name != "json"@,
        name != "html"@,
    ensures
        answer_to(Some(name), result) == Reply::Error(ErrorKind::UnknownFormat),
{
}

/// Where the tool could not be started, a request for JSON, by name or by
/// default, is answered with the JSON text of the fallback data.
pub proof fn law_fallback_answer()
    ensures
        answer_to(Some("json"@), QueryResult::ToolUnavailable) == Reply::Jobs(
            json_text(fallback_table()),
        ),
        answer_to(None, QueryResult::ToolUnavailable) == Reply::Jobs(json_text(fallback_table())),
{
}

/// Where the tool ran and failed, the answer is an error in the form that
/// was asked for; the fallback data is not shown.
pub proof fn law_failure_shows(name: Option<Seq<char>>)
    ensures
        format_named(name) == Format::Json ==> answer_to(name, QueryResult::ToolFailure)
            == Reply::Error(ErrorKind::ToolFailure),
        format_named(name) == Format::Html ==> answer_to(name, QueryResult::ToolFailure)
            == Reply::ErrorPage,
{
}

impl Format {
    /// The format that a request with the format name `name` asks for.
    pub fn named(name: Option<&str>) -> (format: Format)
        ensures
            format == format_named(text_of(name)),
    {
        match name {
            None => Format::Json,
            Some(name) => if same_text(name, "json") {
                Format::Json
            } else if same_text(name, "html") {
                Format::Html
            } else {
                Format::Other
            },
        }
    }
}

impl ErrorKind {
    /// The message that the body of the answer holds.
    pub fn message(&self) -> (text: &'static str)
        ensures
            text@ == message_of(*self),
    {
        match self {
            ErrorKind::ToolFailure => "squeue failed",
            ErrorKind::UnknownFormat => "unknown format",
        }
    }
}

impl Response {
    /// The status to send the answer with: the same for every answer.
    pub fn status(&self) -> (code: u16)
        ensures
            code == STATUS,
    {
        STATUS
    }

    /// The name of the page to render, if the answer is a page.
    pub fn page(&self) -> (name: Option<&'static str>)
        ensures
            text_of(name) == page_of(self@),
    {
        match self {
            Response::JobsPage(_) => Some(JOBS_PAGE),
            Response::ErrorPage => Some(ERROR_PAGE),
            _ => None,
        }
    }
}

/// The answer in the form `format` when the jobs to show are `jobs`, or when
/// there are none because the query failed.
pub fn respond(format: Format, jobs: Option<JobTable>) -> (response: Response)
    ensures
        response@ == reply_to(format, table_view(jobs)),
{
    match format {
        Format::Other => Response::Error(ErrorKind::UnknownFormat),
        Format::Json => match jobs {
            Some(table) => Response::Jobs(to_json(&table)),
            None => Response::Error(ErrorKind::ToolFailure),
        },
        Format::Html => match jobs {
            Some(table) => Response::JobsPage(table),
            None => Response::ErrorPage,
        },
    }
}

/// The answer to a request with the format name `name` after the query
/// ended with `result`.
pub fn answer(name: Option<&str>, result: &QueryResult) -> (response: Response)
    ensures
        response@ == answer_to(text_of(name), *result),
{
    respond(Format::named(name), jobs_of(result))
}

} // verus!
