//! The whole in-memory run: raw accounting text in, display lines, audit
//! lines and the new watermark text out. Either every stage succeeds, or
//! the first malformed field aborts the run and nothing is produced.

use vstd::prelude::*;

use crate::audit::log_lines;
use crate::audit::spec_log_line;
use crate::display::display_spec;
use crate::display::render_jobs;
use crate::display::RenderedLine;
use crate::extract::extract_jobs;
use crate::extract::extract_spec;
use crate::job::Job;
use crate::job::JobV;
use crate::job::ParseError;
use crate::timestamp::Timestamp;
use crate::tokenize::records_of;
use crate::tokenize::tokens_of;

verus! {

/// Everything a completed run produces.
pub struct RunOutput {
    /// The extraction-filtered working set, in stream order.
    pub jobs: Vec<Job>,
    /// The table lines, grouped and display-filtered.
    pub display: Vec<RenderedLine>,
    /// One audit-log line per job of the working set.
    pub log_entries: Vec<String>,
    /// The text to persist as the new watermark: always the current time.
    pub new_watermark: String,
}

/// Runs extraction, display grouping, audit-line rendering and watermark
/// renewal on one batch of accounting text. On success the audit log gets
/// exactly one line per extracted job, and the new watermark is `now`
/// whether or not any job was found; on a malformed record the whole run
/// fails with that record's first field error.
pub fn run_pipeline(raw: &str, now: Timestamp) -> (r: Result<RunOutput, ParseError>)
    requires
        now.wf(),
    ensures
        match extract_spec(records_of(tokens_of(raw@))) {
            Ok(jobs) => r matches Ok(out) && {
                &&& out.jobs.deep_view() == jobs
                &&& out.display.deep_view() == display_spec(jobs)
                &&& out.log_entries@.len() == jobs.len()
                &&& forall|i: int|
                    0 <= i < jobs.len() ==> (#[trigger] out.log_entries.deep_view()[i])
                        == spec_log_line(jobs[i])
                &&& out.new_watermark@ == now.spec_watermark_text()
            },
            Err(e) => r == Err::<RunOutput, ParseError>(e),
        },
{
    let jobs = match extract_jobs(raw) {
        Ok(jobs) => jobs,
        Err(e) => {
            return Err(e);
        },
    };
    let display = render_jobs(&jobs);
    let log_entries = log_lines(&jobs);
    let new_watermark = now.watermark_text();
    Ok(RunOutput { jobs, display, log_entries, new_watermark })
}

} // verus!
