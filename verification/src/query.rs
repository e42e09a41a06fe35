//! Asking the scheduler's query tool: what to pass to it, and what to make
//! of how it ended.

use crate::fallback::{fallback_dataset, fallback_table};
use crate::table::{parse, table_of, JobTable, Table};
use crate::text::{lossy_text, views};
use vstd::prelude::*;

verus! {

/// The name of the query tool.
pub const TOOL: &'static str = "squeue";

/// How one run of the query tool ended.
#[derive(Debug, PartialEq, Eq)]
pub enum QueryResult {
    /// It ran and reported success; this is what it wrote.
    Output(Vec<u8>),
    /// It ran and reported failure.
    ToolFailure,
    /// It could not be started.
    ToolUnavailable,
}

/// The text of `name`, if there is one.
pub open spec fn text_of(name: Option<&str>) -> Option<Seq<char>> {
    match name {
        Some(name) => Some(name@),
        None => None,
    }
}

/// The arguments of a query: all jobs, every field, and with a `filter` only
/// the jobs of that name. The filter is one argument, whatever it holds.
pub open spec fn args_of(filter: Option<Seq<char>>) -> Seq<Seq<char>> {
    match filter {
        Some(name) => seq!["-a"@, "-o"@, "%all"@, "-n"@, name],
        None => seq!["-a"@, "-o"@, "%all"@],
    }
}

/// The arguments with which to run the query tool.
pub fn query_args(filter: Option<&str>) -> (args: Vec<String>)
    ensures
        views(args@) == args_of(text_of(filter)),
{
    let mut args: Vec<String> = Vec::new();
    args.push("-a".to_owned());
    args.push("-o".to_owned());
    args.push("%all".to_owned());
    if let Some(name) = filter {
        args.push("-n".to_owned());
        args.push(name.to_owned());
    }
    args
}

/// What to make of a run of the tool: `started` says whether it could be
/// started, `succeeded` whether it then reported success, and `output` holds
/// what it wrote.
pub fn query_result(started: bool, succeeded: bool, output: Vec<u8>) -> (result: QueryResult)
    ensures
        !started ==> result == QueryResult::ToolUnavailable,
        started && !succeeded ==> result == QueryResult::ToolFailure,
        started && succeeded ==> result == QueryResult::Output(output),
{
    if !started {
        QueryResult::ToolUnavailable
    } else if succeeded {
        QueryResult::Output(output)
    } else {
        QueryResult::ToolFailure
    }
}

/// The jobs to show after a run of the tool: those of its listing; the
/// fallback data where the tool could not be started; none where it failed.
pub open spec fn jobs_after(result: QueryResult) -> Option<Table> {
    match result {
        QueryResult::Output(raw) => Some(table_of(lossy_text(raw@))),
        QueryResult::ToolFailure => None,
        QueryResult::ToolUnavailable => Some(fallback_table()),
    }
}

/// The view of `jobs`, if there are any.
pub open spec fn table_view(jobs: Option<JobTable>) -> Option<Table> {
    match jobs {
        Some(table) => Some(table@),
        None => None,
    }
}

/// The jobs to show after a run of the tool.
pub fn jobs_of(result: &QueryResult) -> (jobs: Option<JobTable>)
    ensures
        table_view(jobs) == jobs_after(*result),
{
    match result {
        QueryResult::Output(raw) => Some(parse(raw.as_slice())),
        QueryResult::ToolFailure => None,
        QueryResult::ToolUnavailable => Some(fallback_dataset()),
    }
}

} // verus!
