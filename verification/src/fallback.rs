//! The jobs that are shown where the scheduler's query tool is not installed.

use crate::strmap::StrMap;
use crate::table::{key_of, JobRecord, JobTable, Record, Table, ID_FIELD};
use vstd::prelude::*;

verus! {

/// The identifier of the one job of the fallback data.
pub const FALLBACK_ID: &'static str = "4725";

/// The one job of the fallback data. Its identifier stands last, where
/// nothing can come after it.
pub open spec fn fallback_record() -> Record {
    Map::<Seq<char>, Seq<char>>::empty()
        .insert("ACCOUNT"@, "urgent"@)
        .insert("ARRAY_JOB_ID"@, "4725"@)
        .insert("ARRAY_TASK_ID"@, "N/A"@)
        .insert("COMMAND"@, "(null)"@)
        .insert("COMMENT"@, "(null)"@)
        .insert("CONTIGUOUS"@, "0"@)
        .insert("CORES_PER_SOCKET"@, "*"@)
        .insert("CORE_SPEC"@, "N/A"@)
        .insert("CPUS"@, "28"@)
        .insert("DEPENDENCY"@, "(null)"@)
        .insert("END_TIME"@, "NONE"@)
        .insert("EXC_NODES"@, ""@)
        .insert("EXEC_HOST"@, "slurm-gpu04"@)
        .insert("FEATURES"@, "(null)"@)
        .insert("GROUP"@, "1004"@)
        .insert("LICENSES"@, "(null)"@)
        .insert("MIN_CPUS"@, "28"@)
        .insert("MIN_MEMORY"@, "256G"@)
        .insert("MIN_TMP_DISK"@, "0"@)
        .insert("NAME"@, "wrap"@)
        .insert("NICE"@, "0"@)
        .insert("NODELIST"@, "slurm-gpu04"@)
        .insert("NODELIST(REASON)"@, "slurm-gpu04"@)
        .insert("NODES"@, "1"@)
        .insert("OVER_SUBSCRIBE"@, "OK"@)
        .insert("PARTITION"@, "GENOMIQUE-CPU"@)
        .insert("PRIORITY"@, "4294897553"@)
        .insert("QOS"@, "urgent"@)
        .insert("REASON"@, "None"@)
        .insert("REQ_NODES"@, ""@)
        .insert("RESERVATION"@, "(null)"@)
        .insert("S:C:T"@, "*:*:*"@)
        .insert("SCHEDNODES"@, "(null)"@)
        .insert("SOCKETS_PER_NODE"@, "*"@)
        .insert("ST"@, "R"@)
        .insert("START_TIME"@, "2025-11-28T10:20:05"@)
        .insert("STATE"@, "RUNNING"@)
        .insert("SUBMIT_TIME"@, "2025-11-28T10:20:04"@)
        .insert("THREADS_PER_CORE"@, "*"@)
        .insert("TIME"@, "34:07"@)
        .insert("TIME_LEFT"@, "UNLIMITED"@)
        .insert("TIME_LIMIT"@, "UNLIMITED"@)
        .insert("TRES_PER_NODE"@, "gres:gpu:a100:2"@)
        .insert("UID"@, "1001"@)
        .insert("USER"@, "charles"@)
        .insert("WCKEY"@, "(null)"@)
        .insert("WORK_DIR"@, "/some/work/directory"@)
        .insert(ID_FIELD@, FALLBACK_ID@)
}

/// The fallback data: one running job, filed under its identifier.
pub open spec fn fallback_table() -> Table {
    Map::<Seq<char>, Record>::empty().insert(FALLBACK_ID@, fallback_record())
}

/// The fallback job is filed as a listing of it would be: under the value
/// of its identifier field.
pub proof fn law_fallback_key()
    ensures
        key_of(fallback_record()) == FALLBACK_ID@,
        fallback_table().dom() == set![key_of(fallback_record())],
{
    reveal_strlit("4725");
    assert(fallback_table().dom() =~= set![FALLBACK_ID@]);
}

/// Puts the text `value` under `name`.
fn put(record: &mut JobRecord, name: &str, value: &str)
    ensures
        final(record)@ == old(record)@.insert(name@, value@),
{
    record.insert(name.to_owned(), value.to_owned());
}

/// The fallback data.
pub fn fallback_dataset() -> (table: JobTable)
    ensures
        table@ == fallback_table(),
{
    let mut job: JobRecord = StrMap::new();
    put(&mut job, "ACCOUNT", "urgent");
    put(&mut job, "ARRAY_JOB_ID", "4725");
    put(&mut job, "ARRAY_TASK_ID", "N/A");
    put(&mut job, "COMMAND", "(null)");
    put(&mut job, "COMMENT", "(null)");
    put(&mut job, "CONTIGUOUS", "0");
    put(&mut job, "CORES_PER_SOCKET", "*");
    put(&mut job, "CORE_SPEC", "N/A");
    put(&mut job, "CPUS", "28");
    put(&mut job, "DEPENDENCY", "(null)");
    put(&mut job, "END_TIME", "NONE");
    put(&mut job, "EXC_NODES", "");
    put(&mut job, "EXEC_HOST", "slurm-gpu04");
    put(&mut job, "FEATURES", "(null)");
    put(&mut job, "GROUP", "1004");
    put(&mut job, "LICENSES", "(null)");
    put(&mut job, "MIN_CPUS", "28");
    put(&mut job, "MIN_MEMORY", "256G");
    put(&mut job, "MIN_TMP_DISK", "0");
    put(&mut job, "NAME", "wrap");
    put(&mut job, "NICE", "0");
    put(&mut job, "NODELIST", "slurm-gpu04");
    put(&mut job, "NODELIST(REASON)", "slurm-gpu04");
    put(&mut job, "NODES", "1");
    put(&mut job, "OVER_SUBSCRIBE", "OK");
    put(&mut job, "PARTITION", "GENOMIQUE-CPU");
    put(&mut job, "PRIORITY", "4294897553");
    put(&mut job, "QOS", "urgent");
    put(&mut job, "REASON", "None");
    put(&mut job, "REQ_NODES", "");
    put(&mut job, "RESERVATION", "(null)");
    put(&mut job, "S:C:T", "*:*:*");
    put(&mut job, "SCHEDNODES", "(null)");
    put(&mut job, "SOCKETS_PER_NODE", "*");
    put(&mut job, "ST", "R");
    put(&mut job, "START_TIME", "2025-11-28T10:20:05");
    put(&mut job, "STATE", "RUNNING");
    put(&mut job, "SUBMIT_TIME", "2025-11-28T10:20:04");
    put(&mut job, "THREADS_PER_CORE", "*");
    put(&mut job, "TIME", "34:07");
    put(&mut job, "TIME_LEFT", "UNLIMITED");
    put(&mut job, "TIME_LIMIT", "UNLIMITED");
    put(&mut job, "TRES_PER_NODE", "gres:gpu:a100:2");
    put(&mut job, "UID", "1001");
    put(&mut job, "USER", "charles");
    put(&mut job, "WCKEY", "(null)");
    put(&mut job, "WORK_DIR", "/some/work/directory");
    put(&mut job, ID_FIELD, FALLBACK_ID);
    let mut table: JobTable = StrMap::new();
    table.insert(FALLBACK_ID.to_owned(), job);
    table
}

} // verus!
