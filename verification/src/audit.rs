//! Audit-log lines: one line per job of the working set, before any display
//! filtering, fields separated by semicolons, insertion order preserved.

use vstd::prelude::*;
use vstd::string::StringExecFns;

use crate::display::spec_id_text;
use crate::job::Job;
use crate::job::JobV;
use crate::numbers::dec_text;
use crate::numbers::u64_text;
use crate::timestamp::Timestamp;

verus! {

/// Text of an optional timestamp in the audit log; absence is written out
/// as an explicit marker, never as an empty field.
pub open spec fn spec_log_ts(o: Option<Timestamp>) -> Seq<char> {
    match o {
        Some(t) => t.spec_watermark_text(),
        None => "none"@,
    }
}

fn log_ts(o: &Option<Timestamp>) -> (s: String)
    requires
        o matches Some(t) ==> t.wf(),
    ensures
        s@ == spec_log_ts(*o),
{
    match o {
        Some(t) => t.watermark_text(),
        None => String::from_str("none"),
    }
}

/// One audit-log line: identifier, name, CPU count, elapsed, start, end and
/// state, in declared order, semicolon-separated.
pub open spec fn spec_log_line(j: JobV) -> Seq<char> {
    spec_id_text(j) + ";"@ + j.jobname + ";"@ + dec_text(j.alloccpus as int) + ";"@ + j.elapsed
        + ";"@ + spec_log_ts(j.start) + ";"@ + spec_log_ts(j.end) + ";"@ + j.state
}

/// Renders the audit-log line of one job.
pub fn log_line(j: &Job) -> (s: String)
    requires
        j@.wf_ts(),
    ensures
        s@ == spec_log_line(j@),
{
    let mut s = String::new();
    match j.array_index {
        Some(i) => {
            s.append(u64_text(j.jobid_base).as_str());
            s.append("_");
            s.append(u64_text(i).as_str());
        },
        None => {
            s.append(u64_text(j.jobid_base).as_str());
        },
    }
    s.append(";");
    s.append(j.jobname.as_str());
    s.append(";");
    s.append(u64_text(j.alloccpus).as_str());
    s.append(";");
    s.append(j.elapsed.as_str());
    s.append(";");
    s.append(log_ts(&j.start).as_str());
    s.append(";");
    s.append(log_ts(&j.end).as_str());
    s.append(";");
    s.append(j.state.as_str());
    proof {
        assert(s@ =~= spec_log_line(j@));
    }
    s
}

/// Renders one audit-log line per job of the working set, in order: the log
/// records exactly as many entries as extraction produced, whatever the
/// display filter later hides.
pub fn log_lines(jobs: &Vec<Job>) -> (out: Vec<String>)
    requires
        forall|i: int| 0 <= i < jobs.deep_view().len() ==> (#[trigger] jobs.deep_view()[i]).wf_ts(),
    ensures
        out@.len() == jobs@.len(),
        forall|i: int|
            0 <= i < out@.len() ==> (#[trigger] out.deep_view()[i]) == spec_log_line(
                jobs.deep_view()[i],
            ),
{
    let n = jobs.len();
    let mut out: Vec<String> = Vec::new();
    let mut i: usize = 0;
    while i < n
        invariant
            i <= n,
            n == jobs@.len(),
            out@.len() == i,
            forall|t: int| 0 <= t < jobs.deep_view().len() ==> (#[trigger] jobs.deep_view()[t]).wf_ts(),
            forall|t: int|
                0 <= t < i ==> (#[trigger] out.deep_view()[t]) == spec_log_line(
                    jobs.deep_view()[t],
                ),
        decreases n - i,
    {
        proof {
            assert(jobs.deep_view()[i as int] == jobs@[i as int]@);
            assert(jobs.deep_view()[i as int].wf_ts());
        }
        let line = log_line(&jobs[i]);
        let ghost lv = line@;
        let ghost prev = out.deep_view();
        out.push(line);
        proof {
            assert(out.deep_view() =~= prev.push(lv));
        }
        i += 1;
    }
    out
}

} // verus!
