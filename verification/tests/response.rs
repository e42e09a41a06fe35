use slurm_web::fallback::fallback_dataset;
use slurm_web::query::QueryResult;
use slurm_web::response::{
    answer, respond, ErrorKind, Format, Response, ERROR_PAGE, JOBS_PAGE, STATUS,
};
use slurm_web::strmap::{SameAs, StrMap};
use slurm_web::table::{parse, JobRecord, JobTable};
use std::collections::BTreeMap;

fn record(pairs: &[(&str, &str)]) -> JobRecord {
    let mut out: JobRecord = StrMap::new();
    for (name, value) in pairs {
        out.insert(name.to_string(), value.to_string());
    }
    out
}

fn table(jobs: Vec<(&str, JobRecord)>) -> JobTable {
    let mut out: JobTable = StrMap::new();
    for (id, job) in jobs {
        out.insert(id.to_string(), job);
    }
    out
}

fn as_maps(table: &JobTable) -> BTreeMap<String, BTreeMap<String, String>> {
    table
        .entries()
        .iter()
        .map(|(id, job)| (id.clone(), job.entries().iter().cloned().collect()))
        .collect()
}

fn from_maps(maps: &BTreeMap<String, BTreeMap<String, String>>) -> JobTable {
    let mut out: JobTable = StrMap::new();
    for (id, fields) in maps {
        let mut job: JobRecord = StrMap::new();
        for (name, value) in fields {
            job.insert(name.clone(), value.clone());
        }
        out.insert(id.clone(), job);
    }
    out
}

fn json_body(response: Response) -> String {
    match response {
        Response::Jobs(text) => text,
        other => panic!("not a JSON body of jobs: {:?}", other),
    }
}

fn all_results() -> Vec<QueryResult> {
    vec![
        QueryResult::Output(b"JOBID|A\n1|x".to_vec()),
        QueryResult::Output(Vec::new()),
        QueryResult::ToolFailure,
        QueryResult::ToolUnavailable,
    ]
}

#[test]
fn format_defaults_to_json() {
    assert_eq!(Format::named(None), Format::Json);
}

#[test]
fn format_names() {
    assert_eq!(Format::named(Some("json")), Format::Json);
    assert_eq!(Format::named(Some("html")), Format::Html);
}

#[test]
fn other_format_names_are_unknown() {
    for name in ["bogus", "", "JSON", "Html", "json ", " html", "xml", "jsonhtml"] {
        assert_eq!(Format::named(Some(name)), Format::Other, "format {:?}", name);
    }
}

#[test]
fn error_messages() {
    assert_eq!(ErrorKind::ToolFailure.message(), "squeue failed");
    assert_eq!(ErrorKind::UnknownFormat.message(), "unknown format");
}

#[test]
fn page_names() {
    assert_eq!(JOBS_PAGE, "squeue");
    assert_eq!(ERROR_PAGE, "error");
    assert_eq!(Response::JobsPage(table(vec![])).page(), Some("squeue"));
    assert_eq!(Response::ErrorPage.page(), Some("error"));
    assert_eq!(Response::Jobs(String::new()).page(), None);
    assert_eq!(Response::Error(ErrorKind::ToolFailure).page(), None);
}

#[test]
fn every_answer_has_the_same_status() {
    assert_eq!(STATUS, 200);
    for result in all_results() {
        for name in [None, Some("json"), Some("html"), Some("bogus")] {
            assert_eq!(answer(name, &result).status(), 200);
        }
    }
}

#[test]
fn unknown_format_is_an_error_whatever_the_query_gave() {
    for result in all_results() {
        for name in ["bogus", "", "JSON", "xml"] {
            match answer(Some(name), &result) {
                Response::Error(kind) => assert_eq!(kind, ErrorKind::UnknownFormat),
                other => panic!("format {:?} after {:?} gave {:?}", name, result, other),
            }
        }
    }
}

#[test]
fn unknown_format_without_jobs_and_with_jobs() {
    assert!(matches!(
        respond(Format::Other, None),
        Response::Error(ErrorKind::UnknownFormat)
    ));
    assert!(matches!(
        respond(Format::Other, Some(fallback_dataset())),
        Response::Error(ErrorKind::UnknownFormat)
    ));
}

#[test]
fn unavailable_tool_answers_json_with_the_fallback() {
    let expected = serde_json::to_string(&as_maps(&fallback_dataset())).unwrap();
    assert_eq!(json_body(answer(Some("json"), &QueryResult::ToolUnavailable)), expected);
    assert_eq!(json_body(answer(None, &QueryResult::ToolUnavailable)), expected);
    assert_eq!(json_body(respond(Format::Json, Some(fallback_dataset()))), expected);
}

#[test]
fn unavailable_tool_answers_html_with_the_page_of_the_fallback() {
    match answer(Some("html"), &QueryResult::ToolUnavailable) {
        Response::JobsPage(jobs) => assert!(jobs.same_as(&fallback_dataset())),
        other => panic!("{:?}", other),
    }
}

#[test]
fn failed_tool_answers_with_an_error() {
    assert!(matches!(
        answer(Some("json"), &QueryResult::ToolFailure),
        Response::Error(ErrorKind::ToolFailure)
    ));
    assert!(matches!(
        answer(None, &QueryResult::ToolFailure),
        Response::Error(ErrorKind::ToolFailure)
    ));
    assert!(matches!(answer(Some("html"), &QueryResult::ToolFailure), Response::ErrorPage));
    assert!(matches!(respond(Format::Json, None), Response::Error(ErrorKind::ToolFailure)));
    assert!(matches!(respond(Format::Html, None), Response::ErrorPage));
}

#[test]
fn output_answers_json_with_its_jobs() {
    let raw = b"JOBID|A\n2|y\n1|x".to_vec();
    let body = json_body(answer(Some("json"), &QueryResult::Output(raw)));
    assert_eq!(body, r#"{"1":{"A":"x","JOBID":"1"},"2":{"A":"y","JOBID":"2"}}"#);
}

#[test]
fn output_answers_html_with_the_page_of_its_jobs() {
    let raw = b"JOBID|A\n2|y\n1|x".to_vec();
    match answer(Some("html"), &QueryResult::Output(raw.clone())) {
        Response::JobsPage(jobs) => assert!(jobs.same_as(&parse(&raw))),
        other => panic!("{:?}", other),
    }
}

#[test]
fn empty_output_answers_json_with_an_empty_object() {
    assert_eq!(json_body(answer(None, &QueryResult::Output(Vec::new()))), "{}");
    assert_eq!(json_body(respond(Format::Json, Some(table(vec![])))), "{}");
}

#[test]
fn json_text_lists_keys_in_order_and_escapes() {
    let jobs = table(vec![
        ("b", record(&[("z", "1"), ("a", "quote \" and \\ and\ttab")])),
        ("a", record(&[])),
        ("", record(&[("é", "✓")])),
    ]);
    assert_eq!(
        json_body(respond(Format::Json, Some(jobs))),
        r#"{"":{"é":"✓"},"a":{},"b":{"a":"quote \" and \\ and\ttab","z":"1"}}"#
    );
}

#[test]
fn json_text_does_not_depend_on_insertion_order() {
    let one = table(vec![
        ("1", record(&[("A", "x"), ("B", "y")])),
        ("2", record(&[("A", "u")])),
    ]);
    let other = table(vec![
        ("2", record(&[("A", "u")])),
        ("1", record(&[("B", "y"), ("A", "x")])),
    ]);
    assert_eq!(
        json_body(respond(Format::Json, Some(one))),
        json_body(respond(Format::Json, Some(other)))
    );
}

#[test]
fn json_text_reads_back_as_the_same_table() {
    let tables = vec![
        table(vec![]),
        fallback_dataset(),
        parse(b"JOBID|A||B\n1|x|y|z\n2|u\n\n1|v|w"),
        table(vec![
            ("1", record(&[("NAME", "a \"quoted\" name"), ("PATH", "C:\\dir\\file")])),
            ("", record(&[("", ""), ("line", "one\ntwo\r\n"), ("wide", "é✓日本\u{1f600}")])),
            ("UNKNOWN", record(&[("ctl", "\u{0}\u{1}\u{1f}\u{7f}")])),
        ]),
    ];
    for jobs in tables {
        let expected = as_maps(&jobs);
        let text = json_body(respond(Format::Json, Some(jobs)));
        let back: BTreeMap<String, BTreeMap<String, String>> =
            serde_json::from_str(&text).unwrap();
        assert_eq!(back, expected);
        assert_eq!(json_body(respond(Format::Json, Some(from_maps(&back)))), text);
    }
}
