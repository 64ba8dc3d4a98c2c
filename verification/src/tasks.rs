//! Tasks run on a pool of named threads, each reporting where it finished.

use vstd::prelude::*;
use crate::text::append_str;

verus! {

/// The name a thread is reported under: its own name, or `unknown` for a
/// thread without one.
pub fn current_thread_name(name: Option<&str>) -> (label: String)
    ensures
        match name {
            Some(n) => label@ == n@,
            None => label@ == seq!['u', 'n', 'k', 'n', 'o', 'w', 'n'],
        },
{
    let mut label = String::new();
    match name {
        Some(n) => append_str(&mut label, n),
        None => {
            append_str(&mut label, "unknown");
            proof {
                reveal_strlit("unknown");
                assert(label@ =~= seq!['u', 'n', 'k', 'n', 'o', 'w', 'n']);
            }
        },
    }
    label
}

/// The report of a task: `task: [<name>]. finish in thread: <thread>`.
pub open spec fn task_report(name: Seq<char>, thread: Seq<char>) -> Seq<char> {
    "task: ["@ + name + "]. finish in thread: "@ + thread
}

/// Runs the task `name` on the thread called `thread`: it always succeeds,
/// reporting its name and the thread it finished on.
pub fn task(name: &str, thread: &str) -> (result: Result<String, String>)
    ensures
        result matches Ok(report) && report@ == task_report(name@, thread@),
{
    let mut report = String::new();
    append_str(&mut report, "task: [");
    append_str(&mut report, name);
    append_str(&mut report, "]. finish in thread: ");
    append_str(&mut report, thread);
    Ok(report)
}

} // verus!
