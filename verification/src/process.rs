//! Process snapshot provider: wraps the system-wide process table of the
//! OS-introspection crate. Given a numeric process id it re-samples that
//! process and returns its current metadata as plain values, or reports that
//! it no longer exists.
//!
//! Every lookup takes a fresh snapshot, so CPU and memory figures are
//! point-in-time and a process may vanish between two lookups; nothing here
//! assumes cached freshness.

use vstd::prelude::*;

use crate::text::{chars_of, first_index_of, spec_first_index, string_of_chars, sub_chars};

verus! {

/// Point-in-time metadata of one process, as plain values.
#[derive(Clone, Debug)]
pub struct ProcessDetail {
    /// The process id the lookup asked for.
    pub pid: u32,
    /// Program name.
    pub name: String,
    /// Command line, one argument per entry.
    pub cmd: Vec<String>,
    /// Owning user id, rendered as text; absent when the platform reports
    /// none.
    pub user: Option<String>,
    /// Point-in-time CPU usage, in whole percent.
    pub cpu_percent: u64,
    /// Resident memory, in bytes.
    pub memory_bytes: u64,
    /// Virtual memory, in bytes.
    pub virtual_memory_bytes: u64,
    /// Executable path, when known.
    pub exe: Option<String>,
    /// Working directory, when known.
    pub cwd: Option<String>,
    /// Root directory, when known.
    pub root_dir: Option<String>,
    /// Start timestamp, in seconds since the epoch.
    pub start_time: u64,
    /// Process status, rendered as text.
    pub status: String,
    /// Environment, one `name` / `value` pair per entry.
    pub environment: Vec<(String, String)>,
}

#[verifier::external_type_specification]
#[verifier::external_body]
pub struct ExSystem(sysinfo::System);

#[verifier::external_type_specification]
#[verifier::external_body]
pub struct ExProcess(sysinfo::Process);

/// Relies on `sysinfo::System::new_all`: takes a fresh snapshot of the whole
/// process table. What it holds depends on the machine's state at that
/// moment, so nothing is promised of it.
#[verifier::external_body]
fn system_snapshot() -> sysinfo::System {
    sysinfo::System::new_all()
}

/// Relies on `sysinfo::System::refresh_processes`: re-samples the one
/// process with the given id, removing it from the table if it is dead.
#[verifier::external_body]
fn system_refresh_pid(s: &mut sysinfo::System, pid: u32) {
    s.refresh_processes(
        sysinfo::ProcessesToUpdate::Some(&[sysinfo::Pid::from_u32(pid)]),
        true,
    );
}

/// Relies on `sysinfo::System::process`: looks the process with the given id
/// up in the snapshot; absent when no such process is known to it.
#[verifier::external_body]
fn system_process<'a>(s: &'a sysinfo::System, pid: u32) -> Option<&'a sysinfo::Process> {
    s.process(sysinfo::Pid::from_u32(pid))
}

/// Relies on `sysinfo::Process::name`: the program name, converted from its
/// platform string lossily.
#[verifier::external_body]
fn proc_name(p: &sysinfo::Process) -> String {
    p.name().to_string_lossy().into_owned()
}

/// Relies on `sysinfo::Process::cmd`: the command line, each argument
/// converted from its platform string lossily.
#[verifier::external_body]
fn proc_cmd(p: &sysinfo::Process) -> Vec<String> {
    let mut v = Vec::new();
    for a in p.cmd() {
        v.push(a.to_string_lossy().into_owned());
    }
    v
}

/// Relies on `sysinfo::Process::user_id`: the owning user id, rendered as
/// text; absent when the platform reports none.
#[verifier::external_body]
fn proc_user(p: &sysinfo::Process) -> Option<String> {
    p.user_id().map(|u| format!("{}", **u))
}

/// Relies on `sysinfo::Process::cpu_usage`: the point-in-time CPU usage,
/// truncated to whole percent.
#[verifier::external_body]
fn proc_cpu_percent(p: &sysinfo::Process) -> u64 {
    p.cpu_usage() as u64
}

/// Relies on `sysinfo::Process::memory`: resident memory in bytes.
pub assume_specification[ sysinfo::Process::memory ](p: &sysinfo::Process) -> u64;

/// Relies on `sysinfo::Process::virtual_memory`: virtual memory in bytes.
pub assume_specification[ sysinfo::Process::virtual_memory ](p: &sysinfo::Process) -> u64;

/// Relies on `sysinfo::Process::start_time`: the start timestamp in seconds
/// since the epoch.
pub assume_specification[ sysinfo::Process::start_time ](p: &sysinfo::Process) -> u64;

/// Relies on `sysinfo::Process::exe`: the executable path, converted
/// lossily; absent when unknown.
#[verifier::external_body]
fn proc_exe(p: &sysinfo::Process) -> Option<String> {
    p.exe().map(|x| x.to_string_lossy().into_owned())
}

/// Relies on `sysinfo::Process::cwd`: the working directory, converted
/// lossily; absent when unknown.
#[verifier::external_body]
fn proc_cwd(p: &sysinfo::Process) -> Option<String> {
    p.cwd().map(|x| x.to_string_lossy().into_owned())
}

/// Relies on `sysinfo::Process::root`: the root directory, converted
/// lossily; absent when unknown.
#[verifier::external_body]
fn proc_root(p: &sysinfo::Process) -> Option<String> {
    p.root().map(|x| x.to_string_lossy().into_owned())
}

/// Relies on `sysinfo::Process::status` and its textual rendering.
#[verifier::external_body]
fn proc_status(p: &sysinfo::Process) -> String {
    format!("{}", p.status())
}

/// Relies on `sysinfo::Process::environ`: the raw `name=value` environment
/// entries, each converted from its platform string lossily.
#[verifier::external_body]
fn proc_environ(p: &sysinfo::Process) -> Vec<String> {
    let mut v = Vec::new();
    for e in p.environ() {
        v.push(e.to_string_lossy().into_owned());
    }
    v
}

/// The decomposition of one raw environment entry on its first `=`: name
/// before it, value after it; an entry without `=` is all name.
pub open spec fn spec_env_pair(e: Seq<char>) -> (Seq<char>, Seq<char>) {
    match spec_first_index(e, '=') {
        Some(j) => (e.take(j), e.skip(j + 1)),
        None => (e, Seq::empty()),
    }
}

/// Splits one raw environment entry into its name and value.
fn env_pair(e: &str) -> (r: (String, String))
    ensures
        (r.0@, r.1@) == spec_env_pair(e@),
{
    let cs = chars_of(e);
    let n = cs.len();
    match first_index_of(&cs, '=') {
        Some(j) => {
            let name = sub_chars(&cs, 0, j);
            let value = sub_chars(&cs, j + 1, n);
            proof {
                assert(name@ =~= e@.take(j as int));
                assert(value@ =~= e@.skip(j + 1));
            }
            (string_of_chars(&name), string_of_chars(&value))
        },
        None => {
            let whole = sub_chars(&cs, 0, n);
            proof {
                assert(whole@ =~= e@);
            }
            let empty: Vec<char> = Vec::new();
            proof {
                assert(empty@ =~= Seq::<char>::empty());
            }
            (string_of_chars(&whole), string_of_chars(&empty))
        },
    }
}

/// Splits every raw environment entry into a name/value pair.
fn env_pairs(entries: &Vec<String>) -> (r: Vec<(String, String)>)
    ensures
        r@.len() == entries@.len(),
        forall|i: int|
            0 <= i < r@.len() ==> (#[trigger] r@[i].0@, r@[i].1@) == spec_env_pair(entries@[i]@),
{
    let mut r: Vec<(String, String)> = Vec::new();
    let mut i: usize = 0;
    while i < entries.len()
        invariant
            i <= entries@.len(),
            r@.len() == i,
            forall|k: int|
                0 <= k < r@.len() ==> (#[trigger] r@[k].0@, r@[k].1@) == spec_env_pair(
                    entries@[k]@,
                ),
        decreases entries@.len() - i,
    {
        r.push(env_pair(entries[i].as_str()));
        i += 1;
    }
    r
}

/// Re-samples a single process: takes a fresh snapshot, refreshes the one
/// id, and converts what the snapshot holds to plain values. Absent when the
/// process no longer exists; whatever comes back, the detail's `pid` is the
/// id that was asked for.
pub fn refresh_one(pid: u32) -> (r: Option<ProcessDetail>)
    ensures
        r matches Some(d) ==> d.pid == pid,
{
    let mut sys = system_snapshot();
    system_refresh_pid(&mut sys, pid);
    match system_process(&sys, pid) {
        None => None,
        Some(p) => {
            let raw_env = proc_environ(p);
            Some(
                ProcessDetail {
                    pid,
                    name: proc_name(p),
                    cmd: proc_cmd(p),
                    user: proc_user(p),
                    cpu_percent: proc_cpu_percent(p),
                    memory_bytes: p.memory(),
                    virtual_memory_bytes: p.virtual_memory(),
                    exe: proc_exe(p),
                    cwd: proc_cwd(p),
                    root_dir: proc_root(p),
                    start_time: p.start_time(),
                    status: proc_status(p),
                    environment: env_pairs(&raw_env),
                },
            )
        },
    }
}

} // verus!
