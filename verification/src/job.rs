//! Typed job records and the builder that fills them from a record's seven
//! text fields.

use vstd::prelude::*;

use crate::datetime::input_format;
use crate::datetime::parse_datetime;
use crate::datetime::spec_input_format;
use crate::datetime::spec_parsed_datetime;
use crate::datetime::ts_of_fields;
use crate::numbers::digits_val;
use crate::numbers::parse_u64;
use crate::numbers::parses_to_u64;
use crate::text::str_eq;
use crate::timestamp::Timestamp;
use vstd::std_specs::cmp::PartialEqSpec;

verus! {

/// Why a run was aborted: a field of a promoted record, or the watermark
/// file, held text that does not parse.
#[derive(Clone, Copy, PartialEq, Eq, Structural, Debug)]
pub enum ParseError {
    /// The CPU-count field is not a plain non-negative integer.
    CpuCount,
    /// The start field is neither the sentinel nor a timestamp.
    StartTime,
    /// The end field is neither the sentinel nor a timestamp.
    EndTime,
    /// The watermark file holds text that is not a timestamp.
    Watermark,
}

/// One accounting record, typed.
#[derive(Debug, Clone)]
pub struct Job {
    /// Numeric job identifier; array-job siblings share it.
    pub jobid_base: u64,
    /// Present only for array-job elements.
    pub array_index: Option<u64>,
    pub jobname: String,
    /// Allocated CPU count.
    pub alloccpus: u64,
    /// Wall-clock duration, kept as opaque text.
    pub elapsed: String,
    /// Absent while the job has not started.
    pub start: Option<Timestamp>,
    /// Absent while the job has not finished.
    pub end: Option<Timestamp>,
    /// Run state, e.g. `COMPLETED`, `FAILED`, `RUNNING`.
    pub state: String,
}

/// The mathematical value of a [`Job`].
pub ghost struct JobV {
    pub jobid_base: u64,
    pub array_index: Option<u64>,
    pub jobname: Seq<char>,
    pub alloccpus: u64,
    pub elapsed: Seq<char>,
    pub start: Option<Timestamp>,
    pub end: Option<Timestamp>,
    pub state: Seq<char>,
}

impl JobV {
    /// Whatever timestamps are present are real calendar timestamps.
    pub open spec fn wf_ts(self) -> bool {
        &&& (self.start matches Some(t) ==> t.wf())
        &&& (self.end matches Some(t) ==> t.wf())
    }

    /// Job identity: the `(jobid_base, array_index)` pair and nothing else.
    pub open spec fn same_job(self, other: JobV) -> bool {
        self.jobid_base == other.jobid_base && self.array_index == other.array_index
    }
}

impl View for Job {
    type V = JobV;

    open spec fn view(&self) -> JobV {
        JobV {
            jobid_base: self.jobid_base,
            array_index: self.array_index,
            jobname: self.jobname@,
            alloccpus: self.alloccpus,
            elapsed: self.elapsed@,
            start: self.start,
            end: self.end,
            state: self.state@,
        }
    }
}

impl DeepView for Job {
    type V = JobV;

    open spec fn deep_view(&self) -> JobV {
        self.view()
    }
}

impl PartialEq for Job {
    /// Two jobs are equal exactly when base identifier and array index
    /// match; name, state and timestamps are not part of identity.
    fn eq(&self, other: &Self) -> (r: bool) {
        let idx_eq = match (self.array_index, other.array_index) {
            (None, None) => true,
            (Some(a), Some(b)) => a == b,
            _ => false,
        };
        self.jobid_base == other.jobid_base && idx_eq
    }
}

impl vstd::std_specs::cmp::PartialEqSpecImpl for Job {
    open spec fn obeys_eq_spec() -> bool {
        true
    }

    open spec fn eq_spec(&self, other: &Job) -> bool {
        self@.same_job(other@)
    }
}

impl Eq for Job {}

/// Job equality is exactly the `(jobid_base, array_index)` pair: two jobs
/// with the same pair compare equal whatever their names, states,
/// timestamps or metrics, and two jobs with different pairs never do.
pub proof fn lemma_job_equality_exact(a: Job, b: Job)
    ensures
        a.eq_spec(&b) <==> (a@.jobid_base == b@.jobid_base && a@.array_index == b@.array_index),
{
}

/// The placeholder the accounting tool prints for a timestamp that does not
/// apply yet.
pub open spec fn spec_unknown_marker() -> Seq<char> {
    "Unknown"@
}

pub fn unknown_marker() -> (s: &'static str)
    ensures
        s@ == spec_unknown_marker(),
{
    "Unknown"
}

/// A start/end field is acceptable when it is the sentinel or parses as a
/// timestamp in the accounting tool's format.
pub open spec fn ts_field_ok(f: Seq<char>) -> bool {
    f == spec_unknown_marker() || spec_parsed_datetime(f, spec_input_format()) is Some
}

/// The timestamp a start/end field denotes; the sentinel denotes absence.
pub open spec fn ts_field_val(f: Seq<char>) -> Option<Timestamp> {
    if f == spec_unknown_marker() {
        None
    } else {
        Some(ts_of_fields(spec_parsed_datetime(f, spec_input_format())->0))
    }
}

/// The job a classified identifier plus a seven-field record denotes, or the
/// first field error: CPU count, then start, then end.
pub open spec fn build_spec(base: u64, array_index: Option<u64>, rec: Seq<Seq<char>>) -> Result<
    JobV,
    ParseError,
> {
    if !parses_to_u64(rec[2]) {
        Err(ParseError::CpuCount)
    } else if !ts_field_ok(rec[4]) {
        Err(ParseError::StartTime)
    } else if !ts_field_ok(rec[5]) {
        Err(ParseError::EndTime)
    } else {
        Ok(
            JobV {
                jobid_base: base,
                array_index,
                jobname: rec[1],
                alloccpus: digits_val(rec[2]) as u64,
                elapsed: rec[3],
                start: ts_field_val(rec[4]),
                end: ts_field_val(rec[5]),
                state: rec[6],
            },
        )
    }
}

/// Parses one start/end field: the sentinel denotes an absent timestamp,
/// anything else must parse in the accounting tool's format.
fn parse_ts_field(f: &String) -> (r: Option<Option<Timestamp>>)
    ensures
        match r {
            Some(o) => ts_field_ok(f@) && o == ts_field_val(f@) && (o matches Some(t) ==> t.wf()),
            None => !ts_field_ok(f@),
        },
{
    if str_eq(f.as_str(), unknown_marker()) {
        return Some(None);
    }
    match parse_datetime(f.as_str(), input_format()) {
        Some(t) => {
            proof {
                assert(ts_of_fields(t.as_fields()) == t);
            }
            Some(Some(t))
        },
        None => None,
    }
}

/// Builds the typed job for a classified identifier and its record.
/// Fails exactly where `build_spec` fails, with the same field error.
pub fn build_job(base: u64, array_index: Option<u64>, rec: &Vec<String>) -> (r: Result<
    Job,
    ParseError,
>)
    requires
        rec@.len() == 7,
    ensures
        match r {
            Ok(job) => build_spec(base, array_index, rec.deep_view()) == Ok::<JobV, ParseError>(
                job@,
            ) && job@.wf_ts(),
            Err(e) => build_spec(base, array_index, rec.deep_view()) == Err::<JobV, ParseError>(e),
        },
{
    let cpus = match parse_u64(rec[2].as_str()) {
        Some(v) => v,
        None => {
            return Err(ParseError::CpuCount);
        },
    };
    let start = match parse_ts_field(&rec[4]) {
        Some(o) => o,
        None => {
            return Err(ParseError::StartTime);
        },
    };
    let end = match parse_ts_field(&rec[5]) {
        Some(o) => o,
        None => {
            return Err(ParseError::EndTime);
        },
    };
    let job = Job {
        jobid_base: base,
        array_index,
        jobname: rec[1].clone(),
        alloccpus: cpus,
        elapsed: rec[3].clone(),
        start,
        end,
        state: rec[6].clone(),
    };
    Ok(job)
}

} // verus!
