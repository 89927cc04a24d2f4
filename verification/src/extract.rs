//! Finished-job extraction: raw accounting text to the working set of typed
//! jobs. Records whose identifier is discarded are skipped silently; records
//! promoted to jobs abort the whole run on a malformed field; jobs still
//! running are excluded from the working set.

use vstd::prelude::*;

use crate::classify::classify;
use crate::classify::classify_spec;
use crate::classify::IdClass;
use crate::job::build_job;
use crate::job::build_spec;
use crate::job::Job;
use crate::job::JobV;
use crate::job::ParseError;
use crate::text::str_eq;
use crate::tokenize::lemma_records_index;
use crate::tokenize::lemma_records_len;
use crate::tokenize::records_of;
use crate::tokenize::tokenize;
use crate::tokenize::tokens_of;

verus! {

/// The run state of a job that is still executing; such jobs never enter
/// the working set.
pub open spec fn spec_running_state() -> Seq<char> {
    "RUNNING"@
}

pub fn running_state() -> (s: &'static str)
    ensures
        s@ == spec_running_state(),
{
    "RUNNING"
}

/// Drops a freshly built job again when it is still running.
pub open spec fn keep_unless_running(r: Result<JobV, ParseError>) -> Result<
    Option<JobV>,
    ParseError,
> {
    match r {
        Ok(j) => if j.state == spec_running_state() {
            Ok(None)
        } else {
            Ok(Some(j))
        },
        Err(e) => Err(e),
    }
}

/// What one seven-field record contributes to the working set: nothing for
/// a discarded identifier or a running job, one job otherwise, or the first
/// field error of a promoted record.
pub open spec fn record_step(rec: Seq<Seq<char>>) -> Result<Option<JobV>, ParseError> {
    match classify_spec(rec[0]) {
        IdClass::Discard => Ok(None),
        IdClass::Singular { id } => keep_unless_running(build_spec(id, None, rec)),
        IdClass::ArrayElement { base, index } => keep_unless_running(
            build_spec(base, Some(index), rec),
        ),
    }
}

/// The working set a record stream denotes, in stream order, or the first
/// error any of its records raises.
pub open spec fn extract_spec(recs: Seq<Seq<Seq<char>>>) -> Result<Seq<JobV>, ParseError>
    decreases recs.len(),
{
    if recs.len() == 0 {
        Ok(Seq::empty())
    } else {
        match record_step(recs[0]) {
            Err(e) => Err(e),
            Ok(opt) => match extract_spec(recs.drop_first()) {
                Err(e) => Err(e),
                Ok(rest) => Ok(
                    match opt {
                        Some(j) => seq![j] + rest,
                        None => rest,
                    },
                ),
            },
        }
    }
}

/// Extraction never includes a job whose state is the running state.
pub proof fn lemma_extraction_excludes_running(recs: Seq<Seq<Seq<char>>>)
    ensures
        extract_spec(recs) matches Ok(jobs) ==> forall|i: int|
            0 <= i < jobs.len() ==> (#[trigger] jobs[i]).state != spec_running_state(),
    decreases recs.len(),
{
    if recs.len() > 0 {
        lemma_extraction_excludes_running(recs.drop_first());
        if extract_spec(recs) is Ok {
            let jobs = extract_spec(recs)->Ok_0;
            let rest = extract_spec(recs.drop_first())->Ok_0;
            assert forall|i: int|
                0 <= i < jobs.len() implies (#[trigger] jobs[i]).state
                != spec_running_state() by {
                match record_step(recs[0]) {
                    Ok(Some(j)) => {
                        if i > 0 {
                            assert(jobs[i] == rest[i - 1]);
                        }
                    },
                    _ => {},
                }
            }
        }
    }
}

/// Extracts the working set from the raw accounting text: tokenize, chunk
/// into seven-field records, classify, build, and drop running jobs.
/// Fails exactly where the record stream's first error lies.
pub fn extract_jobs(raw: &str) -> (r: Result<Vec<Job>, ParseError>)
    ensures
        match r {
            Ok(jobs) => {
                &&& extract_spec(records_of(tokens_of(raw@))) == Ok::<Seq<JobV>, ParseError>(
                    jobs.deep_view(),
                )
                &&& forall|i: int|
                    0 <= i < jobs.deep_view().len() ==> (#[trigger] jobs.deep_view()[i]).wf_ts()
                &&& forall|i: int|
                    0 <= i < jobs.deep_view().len() ==> (#[trigger] jobs.deep_view()[i]).state
                        != spec_running_state()
            },
            Err(e) => extract_spec(records_of(tokens_of(raw@))) == Err::<Seq<JobV>, ParseError>(e),
        },
{
    let toks = tokenize(raw);
    let ghost recs = records_of(tokens_of(raw@));
    proof {
        lemma_records_len(toks.deep_view());
    }
    let n = toks.len();
    let mut jobs: Vec<Job> = Vec::new();
    let mut idx: usize = 0;
    let ghost mut k: int = 0;
    proof {
        assert(recs.skip(0) =~= recs);
        assert(jobs.deep_view() =~= Seq::<JobV>::empty());
        if extract_spec(recs) is Ok {
            let rest = extract_spec(recs)->Ok_0;
            assert(jobs.deep_view() + rest =~= rest);
        }
    }
    while n - idx >= 7
        invariant
            toks.deep_view() == tokens_of(raw@),
            toks@.len() == toks.deep_view().len(),
            n == toks@.len(),
            recs == records_of(tokens_of(raw@)),
            7 * recs.len() <= n < 7 * recs.len() + 7,
            idx == 7 * k,
            0 <= k <= recs.len(),
            match extract_spec(recs.skip(k)) {
                Ok(rest) => extract_spec(recs) == Ok::<Seq<JobV>, ParseError>(
                    jobs.deep_view() + rest,
                ),
                Err(e) => extract_spec(recs) == Err::<Seq<JobV>, ParseError>(e),
            },
            forall|i: int| 0 <= i < jobs.deep_view().len() ==> (#[trigger] jobs.deep_view()[i]).wf_ts(),
        decreases n - idx,
    {
        proof {
            assert(k < recs.len());
        }
        let mut rec: Vec<String> = Vec::new();
        rec.push(toks[idx].clone());
        rec.push(toks[idx + 1].clone());
        rec.push(toks[idx + 2].clone());
        rec.push(toks[idx + 3].clone());
        rec.push(toks[idx + 4].clone());
        rec.push(toks[idx + 5].clone());
        rec.push(toks[idx + 6].clone());
        proof {
            lemma_records_index(toks.deep_view(), k);
            assert(rec.deep_view() =~= toks.deep_view().subrange(7 * k, 7 * k + 7));
            assert(rec.deep_view() == recs[k]);
            assert(recs.skip(k)[0] == recs[k]);
            assert(recs.skip(k).drop_first() =~= recs.skip(k + 1));
        }
        let step: Result<Option<Job>, ParseError> = match classify(rec[0].as_str()) {
            IdClass::Discard => Ok(None),
            IdClass::Singular { id } => match build_job(id, None, &rec) {
                Ok(j) => if str_eq(j.state.as_str(), running_state()) {
                    Ok(None)
                } else {
                    Ok(Some(j))
                },
                Err(e) => Err(e),
            },
            IdClass::ArrayElement { base: b, index } => match build_job(b, Some(index), &rec) {
                Ok(j) => if str_eq(j.state.as_str(), running_state()) {
                    Ok(None)
                } else {
                    Ok(Some(j))
                },
                Err(e) => Err(e),
            },
        };
        match step {
            Err(e) => {
                proof {
                    assert(record_step(recs[k]) == Err::<Option<JobV>, ParseError>(e));
                }
                return Err(e);
            },
            Ok(None) => {
                proof {
                    assert(record_step(recs[k]) == Ok::<Option<JobV>, ParseError>(None));
                }
            },
            Ok(Some(j)) => {
                let ghost prev = jobs.deep_view();
                proof {
                    assert(record_step(recs[k]) == Ok::<Option<JobV>, ParseError>(Some(j@)));
                }
                jobs.push(j);
                proof {
                    assert(jobs.deep_view() =~= prev + seq![j@]);
                    if extract_spec(recs.skip(k + 1)) is Ok {
                        let rest = extract_spec(recs.skip(k + 1))->Ok_0;
                        assert((prev + seq![j@]) + rest =~= prev + (seq![j@] + rest));
                    }
                }
            },
        }
        idx += 7;
        proof {
            k = k + 1;
        }
    }
    proof {
        assert(k == recs.len());
        assert(recs.skip(k) =~= Seq::<Seq<Seq<char>>>::empty());
        if extract_spec(recs) is Ok {
            assert(jobs.deep_view() + Seq::<JobV>::empty() =~= jobs.deep_view());
        }
        lemma_extraction_excludes_running(recs);
    }
    Ok(jobs)
}

} // verus!
