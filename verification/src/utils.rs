//! Machine facts and naming conventions: snapshots of the host system,
//! timestamps, fresh identifiers, result-file names, and interpreter
//! discovery for implementations that carry a local virtual environment.

use vstd::prelude::*;
use vstd::string::StringExecFns;

verus! {

/// A snapshot of the host machine taken when a result is produced.
#[derive(Debug, Clone)]
pub struct SystemInfo {
    pub os: String,
    pub arch: String,
    pub cpu_count: usize,
    pub total_memory: u64,
    pub available_memory: u64,
}

/// Resource usage of one process. The processor share is a whole percentage
/// (fractions truncated), so the value stays integral.
#[derive(Debug, Clone, Copy)]
pub struct ProcessStats {
    pub cpu_usage_percent: u64,
    pub memory_usage: u64,
    pub virtual_memory: u64,
}

/// Seconds since the Unix epoch.
///
/// Relies on std::time::SystemTime::now and Duration::as_secs; a clock set
/// before the epoch yields zero rather than a panic.
#[verifier::external_body]
pub fn get_timestamp() -> u64 {
    std::time::SystemTime::now()
        .duration_since(std::time::UNIX_EPOCH)
        .map(|d| d.as_secs())
        .unwrap_or(0)
}

/// Milliseconds since the Unix epoch.
///
/// Relies on std::time::SystemTime::now and Duration::as_millis; a clock set
/// before the epoch yields zero rather than a panic.
#[verifier::external_body]
pub fn get_timestamp_ms() -> u128 {
    std::time::SystemTime::now()
        .duration_since(std::time::UNIX_EPOCH)
        .map(|d| d.as_millis())
        .unwrap_or(0)
}

/// A fresh identifier in hyphenated form.
///
/// Relies on uuid::Uuid::new_v4 and its Display impl, which renders exactly
/// 36 ASCII characters (32 hex digits and 4 hyphens).
#[verifier::external_body]
pub(crate) fn new_uuid_string() -> (r: String)
    ensures
        r@.len() == 36,
{
    uuid::Uuid::new_v4().to_string()
}

/// The current instant rendered as an RFC 3339 timestamp.
///
/// Relies on chrono::Utc::now and chrono::DateTime::to_rfc3339.
#[verifier::external_body]
pub(crate) fn now_rfc3339() -> String {
    chrono::Utc::now().to_rfc3339()
}

/// A snapshot of the host machine.
///
/// Relies on sysinfo: System::new_all, System::refresh_all, System::name,
/// System::kernel_version, System::cpus, System::total_memory and
/// System::available_memory. The values depend on the machine, so nothing is
/// promised of them.
#[verifier::external_body]
pub fn get_system_info() -> SystemInfo {
    let mut system = sysinfo::System::new_all();
    system.refresh_all();
    SystemInfo {
        os: sysinfo::System::name().unwrap_or_else(|| "Unknown".to_string()),
        arch: sysinfo::System::kernel_version().unwrap_or_else(|| "Unknown".to_string()),
        cpu_count: system.cpus().len(),
        total_memory: system.total_memory(),
        available_memory: system.available_memory(),
    }
}

/// Resource usage of the process with the given id, if it is running.
///
/// Relies on sysinfo: System::new, System::refresh_processes,
/// System::process, Process::cpu_usage (a percentage, truncated to a whole
/// number here), Process::memory and Process::virtual_memory.
#[verifier::external_body]
pub fn get_process_stats(pid: u32) -> Option<ProcessStats> {
    let mut system = sysinfo::System::new();
    let pid = sysinfo::Pid::from(pid as usize);
    system.refresh_processes(sysinfo::ProcessesToUpdate::Some(&[pid]), true);
    match system.process(pid) {
        Some(process) => Some(ProcessStats {
            cpu_usage_percent: process.cpu_usage() as u64,
            memory_usage: process.memory(),
            virtual_memory: process.virtual_memory(),
        }),
        None => None,
    }
}

/// The name of the current (non-timestamped) result file of one
/// implementation and one result kind: `{language}_{result_type}.json`.
/// Two implementations never share a file for one kind
/// (`lemma_filename_injective`).
pub fn result_filename(language: &str, result_type: &str) -> (r: String)
    ensures
        r@ == language@ + "_"@ + result_type@ + ".json"@,
{
    let mut s = language.to_owned();
    s.append("_");
    s.append(result_type);
    s.append(".json");
    s
}

/// The glob pattern of legacy timestamp-suffixed result files of one
/// implementation and one result kind: `{language}_{result_type}_*.json`.
pub fn result_file_pattern(language: &str, result_type: &str) -> (r: String)
    ensures
        r@ == language@ + "_"@ + result_type@ + "_*.json"@,
{
    let mut s = language.to_owned();
    s.append("_");
    s.append(result_type);
    s.append("_*.json");
    s
}

/// Appending one fixed suffix never maps two names to the same string, so
/// result files of two implementations can never collide for one result
/// kind.
pub proof fn lemma_filename_injective(a: Seq<char>, b: Seq<char>, suffix: Seq<char>)
    requires
        a + suffix == b + suffix,
    ensures
        a == b,
{
    assert((a + suffix).len() == a.len() + suffix.len());
    assert((b + suffix).len() == b.len() + suffix.len());
    assert(a.len() == b.len());
    assert forall|i: int| 0 <= i < a.len() implies a[i] == b[i] by {
        assert((a + suffix)[i] == a[i]);
        assert((b + suffix)[i] == b[i]);
    }
    assert(a =~= b);
}

/// The interpreter paths a local virtual environment would provide under
/// `impl_dir`, in the order they are preferred.
pub open spec fn venv_python_candidates(impl_dir: Seq<char>) -> Seq<Seq<char>> {
    seq![
        impl_dir + "/venv/bin/python"@,
        impl_dir + "/.venv/bin/python"@,
        impl_dir + "/env/bin/python"@,
        impl_dir + "/.env/bin/python"@,
    ]
}

/// The first of `cands` that occurs in `present`.
pub open spec fn first_present(cands: Seq<Seq<char>>, present: Seq<Seq<char>>) -> Option<
    Seq<char>,
>
    decreases cands.len(),
{
    if cands.len() == 0 {
        None
    } else if present.contains(cands[0]) {
        Some(cands[0])
    } else {
        first_present(cands.drop_first(), present)
    }
}

/// Whether `paths` holds a string equal to `needle`.
fn contains_string(paths: &Vec<String>, needle: &String) -> (r: bool)
    ensures
        r == paths@.map_values(|p: String| p@).contains(needle@),
{
    let ghost views = paths@.map_values(|p: String| p@);
    for i in 0..paths.len()
        invariant
            views == paths@.map_values(|p: String| p@),
            forall|j: int| 0 <= j < i ==> views[j] != needle@,
    {
        if paths[i] == *needle {
            assert(views[i as int] == needle@);
            return true;
        }
    }
    false
}

/// The interpreter of an implementation-local virtual environment under
/// `impl_dir`, preferred over a system-wide default: the first conventional
/// virtual-environment interpreter path that is present in
/// `existing_paths` (the paths the caller found on disk), or `None` when the
/// implementation carries no such environment.
pub fn find_virtual_env_python(impl_dir: &str, existing_paths: &Vec<String>) -> (r: Option<
    String,
>)
    ensures
        match r {
            Some(p) => first_present(
                venv_python_candidates(impl_dir@),
                existing_paths@.map_values(|q: String| q@),
            ) == Some(p@),
            None => first_present(
                venv_python_candidates(impl_dir@),
                existing_paths@.map_values(|q: String| q@),
            ) is None,
        },
{
    proof {
        reveal_with_fuel(first_present, 5);
    }
    let ghost cands = venv_python_candidates(impl_dir@);
    let ghost present = existing_paths@.map_values(|q: String| q@);

    let mut c0 = impl_dir.to_owned();
    c0.append("/venv/bin/python");
    let mut c1 = impl_dir.to_owned();
    c1.append("/.venv/bin/python");
    let mut c2 = impl_dir.to_owned();
    c2.append("/env/bin/python");
    let mut c3 = impl_dir.to_owned();
    c3.append("/.env/bin/python");

    assert(cands =~= seq![c0@, c1@, c2@, c3@]);

    if contains_string(existing_paths, &c0) {
        return Some(c0);
    }
    assert(cands.drop_first() =~= seq![c1@, c2@, c3@]);
    if contains_string(existing_paths, &c1) {
        return Some(c1);
    }
    assert(cands.drop_first().drop_first() =~= seq![c2@, c3@]);
    if contains_string(existing_paths, &c2) {
        return Some(c2);
    }
    assert(cands.drop_first().drop_first().drop_first() =~= seq![c3@]);
    if contains_string(existing_paths, &c3) {
        return Some(c3);
    }
    assert(cands.drop_first().drop_first().drop_first().drop_first() =~= Seq::<Seq<char>>::empty());
    None
}

} // verus!
