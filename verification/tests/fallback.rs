use slurm_web::fallback::{fallback_dataset, FALLBACK_ID};
use slurm_web::strmap::SameAs;
use slurm_web::table::{job_id, parse, JobTable};
use std::collections::BTreeMap;

const EXPECTED: &str = r#"{
  "4725": {
    "ACCOUNT": "urgent",
    "ARRAY_JOB_ID": "4725",
    "ARRAY_TASK_ID": "N/A",
    "COMMAND": "(null)",
    "COMMENT": "(null)",
    "CONTIGUOUS": "0",
    "CORES_PER_SOCKET": "*",
    "CORE_SPEC": "N/A",
    "CPUS": "28",
    "DEPENDENCY": "(null)",
    "END_TIME": "NONE",
    "EXC_NODES": "",
    "EXEC_HOST": "slurm-gpu04",
    "FEATURES": "(null)",
    "GROUP": "1004",
    "JOBID": "4725",
    "LICENSES": "(null)",
    "MIN_CPUS": "28",
    "MIN_MEMORY": "256G",
    "MIN_TMP_DISK": "0",
    "NAME": "wrap",
    "NICE": "0",
    "NODELIST": "slurm-gpu04",
    "NODELIST(REASON)": "slurm-gpu04",
    "NODES": "1",
    "OVER_SUBSCRIBE": "OK",
    "PARTITION": "GENOMIQUE-CPU",
    "PRIORITY": "4294897553",
    "QOS": "urgent",
    "REASON": "None",
    "REQ_NODES": "",
    "RESERVATION": "(null)",
    "S:C:T": "*:*:*",
    "SCHEDNODES": "(null)",
    "SOCKETS_PER_NODE": "*",
    "ST": "R",
    "START_TIME": "2025-11-28T10:20:05",
    "STATE": "RUNNING",
    "SUBMIT_TIME": "2025-11-28T10:20:04",
    "THREADS_PER_CORE": "*",
    "TIME": "34:07",
    "TIME_LEFT": "UNLIMITED",
    "TIME_LIMIT": "UNLIMITED",
    "TRES_PER_NODE": "gres:gpu:a100:2",
    "UID": "1001",
    "USER": "charles",
    "WCKEY": "(null)",
    "WORK_DIR": "/some/work/directory"
  }
}"#;

fn expected() -> BTreeMap<String, BTreeMap<String, String>> {
    serde_json::from_str(EXPECTED).unwrap()
}

fn as_maps(table: &JobTable) -> BTreeMap<String, BTreeMap<String, String>> {
    table
        .entries()
        .iter()
        .map(|(id, job)| (id.clone(), job.entries().iter().cloned().collect()))
        .collect()
}

#[test]
fn fallback_holds_the_fixed_job() {
    assert_eq!(as_maps(&fallback_dataset()), expected());
}

#[test]
fn fallback_has_one_job_with_all_its_fields() {
    let table = fallback_dataset();
    assert_eq!(table.len(), 1);
    assert_eq!(FALLBACK_ID, "4725");
    let job = table.get("4725").unwrap();
    assert_eq!(job.len(), 48);
    assert_eq!(job.get("ACCOUNT").unwrap(), "urgent");
    assert_eq!(job.get("JOBID").unwrap(), "4725");
    assert_eq!(job.get("EXC_NODES").unwrap(), "");
    assert_eq!(job.get("REQ_NODES").unwrap(), "");
    assert_eq!(job.get("NODELIST(REASON)").unwrap(), "slurm-gpu04");
    assert_eq!(job.get("S:C:T").unwrap(), "*:*:*");
    assert_eq!(job.get("START_TIME").unwrap(), "2025-11-28T10:20:05");
    assert_eq!(job.get("TRES_PER_NODE").unwrap(), "gres:gpu:a100:2");
    assert_eq!(job.get("WORK_DIR").unwrap(), "/some/work/directory");
    assert!(job.get("jobid").is_none());
}

#[test]
fn fallback_job_is_filed_under_its_identifier() {
    let table = fallback_dataset();
    for (id, job) in table.entries() {
        assert_eq!(&job_id(job), id);
    }
}

#[test]
fn fallback_is_the_same_every_time() {
    assert!(fallback_dataset().same_as(&fallback_dataset()));
}

#[test]
fn fallback_is_what_its_listing_parses_to() {
    let job = &expected()["4725"];
    let names: Vec<&str> = job.keys().map(|k| k.as_str()).collect();
    let values: Vec<&str> = job.values().map(|v| v.as_str()).collect();
    let listing = format!("{}\n{}\n", names.join("|"), values.join("|"));
    assert!(parse(listing.as_bytes()).same_as(&fallback_dataset()));
}
