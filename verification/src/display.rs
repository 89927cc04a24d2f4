//! Display grouping and line rendering.
//!
//! One forward pass over the working set: singular jobs get one row each;
//! a contiguous run of array-job siblings becomes one parent header plus one
//! indented row per display-eligible sibling, and is omitted entirely when
//! no sibling is eligible. Jobs in the display skip-set are left out of the
//! table (they stay in the audit log).
//!
//! Grouping relies on the accounting tool emitting all elements of one
//! array job contiguously; were siblings ever interleaved with other rows,
//! each contiguous run would form a group of its own.

use vstd::prelude::*;
use vstd::string::StringExecFns;

use crate::job::Job;
use crate::job::JobV;
use crate::numbers::append_padded;
use crate::numbers::dec_text;
use crate::numbers::spec_pad_right;
use crate::numbers::u64_text;
use crate::text::str_eq;

verus! {

/// One line of the printed table.
#[derive(Debug, Clone)]
pub enum RenderedLine {
    /// Parent header of an array-job group: identifier and name only.
    GroupHeader { text: String },
    /// A singular job or one array-job sibling, with a flag that marks
    /// successful completion for emphasis.
    JobRow { text: String, completed: bool },
}

/// The mathematical value of a [`RenderedLine`].
pub ghost enum LineV {
    GroupHeader { text: Seq<char> },
    JobRow { text: Seq<char>, completed: bool },
}

impl View for RenderedLine {
    type V = LineV;

    open spec fn view(&self) -> LineV {
        match self {
            RenderedLine::GroupHeader { text } => LineV::GroupHeader { text: text@ },
            RenderedLine::JobRow { text, completed } => LineV::JobRow {
                text: text@,
                completed: *completed,
            },
        }
    }
}

impl DeepView for RenderedLine {
    type V = LineV;

    open spec fn deep_view(&self) -> LineV {
        self.view()
    }
}

/// States kept out of the printed table: queued but not started, and
/// cancelled with a modifier.
pub open spec fn spec_display_skipped(state: Seq<char>) -> bool {
    state == "PENDING"@ || state == "CANCELLED+"@
}

/// Whether a job of the working set is shown in the table.
pub open spec fn display_ok(j: JobV) -> bool {
    !spec_display_skipped(j.state)
}

fn display_ok_exec(j: &Job) -> (r: bool)
    ensures
        r == display_ok(j@),
{
    !(str_eq(j.state.as_str(), "PENDING") || str_eq(j.state.as_str(), "CANCELLED+"))
}

/// The identifier column: the base id, with `_index` behind it for an
/// array-job sibling.
pub open spec fn spec_id_text(j: JobV) -> Seq<char> {
    match j.array_index {
        Some(i) => dec_text(j.jobid_base as int) + "_"@ + dec_text(i as int),
        None => dec_text(j.jobid_base as int),
    }
}

/// Start column text; an absent start renders the not-started marker.
pub open spec fn spec_start_text(j: JobV) -> Seq<char> {
    match j.start {
        Some(t) => t.spec_brief_text(),
        None => "not started"@,
    }
}

/// End column text; an absent end renders the unknown marker.
pub open spec fn spec_end_text(j: JobV) -> Seq<char> {
    match j.end {
        Some(t) => t.spec_brief_text(),
        None => "unknown"@,
    }
}

/// Whether the job ended in successful completion; such rows are emphasised
/// differently from other terminal states.
pub open spec fn spec_completed(j: JobV) -> bool {
    j.state == "COMPLETED"@
}

/// The full table row of one job: indented for array siblings, then the
/// identifier, name, CPU count, elapsed, start, end and state columns.
pub open spec fn spec_job_row(j: JobV) -> Seq<char> {
    (if j.array_index is Some {
        "  "@
    } else {
        Seq::<char>::empty()
    }) + spec_pad_right(spec_id_text(j), 9) + " "@ + spec_pad_right(j.jobname, 23) + " "@
        + spec_pad_right(dec_text(j.alloccpus as int), 6) + " "@ + spec_pad_right(j.elapsed, 13)
        + " "@ + spec_pad_right(spec_start_text(j), 13) + " "@ + spec_pad_right(
        spec_end_text(j),
        14,
    ) + " "@ + j.state
}

/// The table line of one job.
pub open spec fn job_line(j: JobV) -> LineV {
    LineV::JobRow { text: spec_job_row(j), completed: spec_completed(j) }
}

/// The parent header row of an array-job group: identifier and name only.
pub open spec fn spec_header_row(j: JobV) -> Seq<char> {
    spec_pad_right(dec_text(j.jobid_base as int), 9) + " "@ + j.jobname
}

fn id_text(j: &Job) -> (s: String)
    ensures
        s@ == spec_id_text(j@),
{
    match j.array_index {
        Some(i) => {
            let mut s = u64_text(j.jobid_base);
            s.append("_");
            s.append(u64_text(i).as_str());
            proof {
                assert(s@ =~= spec_id_text(j@));
            }
            s
        },
        None => u64_text(j.jobid_base),
    }
}

fn job_row(j: &Job) -> (line: RenderedLine)
    requires
        j@.wf_ts(),
    ensures
        line@ == job_line(j@),
{
    let mut s = String::new();
    if j.array_index.is_some() {
        s.append("  ");
    }
    let id = id_text(j);
    append_padded(&mut s, id.as_str(), 9);
    s.append(" ");
    append_padded(&mut s, j.jobname.as_str(), 23);
    s.append(" ");
    let cpus = u64_text(j.alloccpus);
    append_padded(&mut s, cpus.as_str(), 6);
    s.append(" ");
    append_padded(&mut s, j.elapsed.as_str(), 13);
    s.append(" ");
    let start = match j.start {
        Some(t) => t.brief_text(),
        None => String::from_str("not started"),
    };
    append_padded(&mut s, start.as_str(), 13);
    s.append(" ");
    let end = match j.end {
        Some(t) => t.brief_text(),
        None => String::from_str("unknown"),
    };
    append_padded(&mut s, end.as_str(), 14);
    s.append(" ");
    s.append(j.state.as_str());
    let completed = str_eq(j.state.as_str(), "COMPLETED");
    proof {
        assert(s@ =~= spec_job_row(j@));
    }
    RenderedLine::JobRow { text: s, completed }
}

fn header_row(j: &Job) -> (line: RenderedLine)
    ensures
        line@ == (LineV::GroupHeader { text: spec_header_row(j@) }),
{
    let mut s = String::new();
    let id = u64_text(j.jobid_base);
    append_padded(&mut s, id.as_str(), 9);
    s.append(" ");
    s.append(j.jobname.as_str());
    proof {
        assert(s@ =~= spec_header_row(j@));
    }
    RenderedLine::GroupHeader { text: s }
}

/// The column labels above the table, aligned with the row columns.
pub open spec fn spec_header_line() -> Seq<char> {
    spec_pad_right("Job ID"@, 9) + " "@ + spec_pad_right("Job Name"@, 23) + " "@ + spec_pad_right(
        "CPUs"@,
        6,
    ) + " "@ + spec_pad_right("Elapsed"@, 13) + " "@ + spec_pad_right("Start"@, 13) + " "@
        + spec_pad_right("End"@, 14) + " "@ + "State"@
}

/// Renders the column labels above the table.
pub fn header_line() -> (s: String)
    ensures
        s@ == spec_header_line(),
{
    let mut s = String::new();
    append_padded(&mut s, "Job ID", 9);
    s.append(" ");
    append_padded(&mut s, "Job Name", 23);
    s.append(" ");
    append_padded(&mut s, "CPUs", 6);
    s.append(" ");
    append_padded(&mut s, "Elapsed", 13);
    s.append(" ");
    append_padded(&mut s, "Start", 13);
    s.append(" ");
    append_padded(&mut s, "End", 14);
    s.append(" ");
    s.append("State");
    proof {
        assert(s@ =~= spec_header_line());
    }
    s
}

/// How many leading jobs of `jobs` are array siblings with base `base`.
pub open spec fn run_len(jobs: Seq<JobV>, base: u64) -> nat
    decreases jobs.len(),
{
    if jobs.len() > 0 && jobs[0].array_index is Some && jobs[0].jobid_base == base {
        1 + run_len(jobs.drop_first(), base)
    } else {
        0
    }
}

/// `run_len` counts exactly the maximal qualifying prefix.
pub proof fn lemma_run_len_props(jobs: Seq<JobV>, base: u64)
    ensures
        run_len(jobs, base) <= jobs.len(),
        forall|t: int|
            0 <= t < run_len(jobs, base) ==> (#[trigger] jobs[t]).array_index is Some
                && jobs[t].jobid_base == base,
        run_len(jobs, base) < jobs.len() ==> !(jobs[run_len(jobs, base) as int].array_index
            is Some && jobs[run_len(jobs, base) as int].jobid_base == base),
    decreases jobs.len(),
{
    if jobs.len() > 0 && jobs[0].array_index is Some && jobs[0].jobid_base == base {
        let rest = jobs.drop_first();
        lemma_run_len_props(rest, base);
        assert forall|t: int|
            0 <= t < run_len(jobs, base) implies (#[trigger] jobs[t]).array_index is Some
            && jobs[t].jobid_base == base by {
            if t > 0 {
                assert(rest[t - 1] == jobs[t]);
            }
        }
    }
}

/// The maximal qualifying prefix determines `run_len`.
pub proof fn lemma_run_len_eq(jobs: Seq<JobV>, base: u64, r: int)
    requires
        0 <= r <= jobs.len(),
        forall|t: int|
            0 <= t < r ==> (#[trigger] jobs[t]).array_index is Some && jobs[t].jobid_base == base,
        r < jobs.len() ==> !(jobs[r].array_index is Some && jobs[r].jobid_base == base),
    ensures
        run_len(jobs, base) == r,
    decreases jobs.len(),
{
    if r > 0 {
        let rest = jobs.drop_first();
        assert(jobs[0].array_index is Some && jobs[0].jobid_base == base);
        assert forall|t: int|
            0 <= t < r - 1 implies (#[trigger] rest[t]).array_index is Some && rest[t].jobid_base
            == base by {
            assert(rest[t] == jobs[t + 1]);
        }
        if r - 1 < rest.len() {
            assert(rest[r - 1] == jobs[r]);
        }
        lemma_run_len_eq(rest, base, r - 1);
    }
}

/// The indented rows of a group's display-eligible siblings, in order.
pub open spec fn spec_children(g: Seq<JobV>) -> Seq<LineV>
    decreases g.len(),
{
    if g.len() == 0 {
        Seq::empty()
    } else {
        (if display_ok(g[0]) {
            seq![job_line(g[0])]
        } else {
            Seq::<LineV>::empty()
        }) + spec_children(g.drop_first())
    }
}

/// Whether any member of the group passes the display filter.
pub open spec fn any_display_ok(g: Seq<JobV>) -> bool {
    exists|i: int| 0 <= i < g.len() && display_ok(#[trigger] g[i])
}

/// The lines of one array-job group: a parent header and the eligible
/// siblings when any sibling is eligible, nothing at all otherwise.
pub open spec fn spec_group_lines(g: Seq<JobV>) -> Seq<LineV> {
    if any_display_ok(g) {
        seq![LineV::GroupHeader { text: spec_header_row(g[0]) }] + spec_children(g)
    } else {
        Seq::empty()
    }
}

/// The whole table: one forward pass, each singular job a row when
/// eligible, each contiguous sibling run one group.
pub open spec fn display_spec(jobs: Seq<JobV>) -> Seq<LineV>
    decreases jobs.len(),
    via display_spec_dec
{
    if jobs.len() == 0 {
        Seq::empty()
    } else if jobs[0].array_index is None {
        (if display_ok(jobs[0]) {
            seq![job_line(jobs[0])]
        } else {
            Seq::<LineV>::empty()
        }) + display_spec(jobs.drop_first())
    } else {
        let g = 1 + run_len(jobs.drop_first(), jobs[0].jobid_base);
        spec_group_lines(jobs.take(g as int)) + display_spec(jobs.skip(g as int))
    }
}

#[via_fn]
proof fn display_spec_dec(jobs: Seq<JobV>) {
    if jobs.len() > 0 && jobs[0].array_index is Some {
        lemma_run_len_props(jobs.drop_first(), jobs[0].jobid_base);
    }
}

/// A parent header appears for an array-job group exactly when at least one
/// sibling of the group passes the display filter; otherwise the group
/// contributes no lines at all.
pub proof fn lemma_header_iff_eligible_sibling(g: Seq<JobV>)
    requires
        g.len() > 0,
    ensures
        any_display_ok(g) <==> spec_group_lines(g).len() > 0,
        any_display_ok(g) ==> spec_group_lines(g)[0] == (LineV::GroupHeader {
            text: spec_header_row(g[0]),
        }),
{
}

/// A list that is one whole array-job group displays as exactly that
/// group's lines: a header plus its eligible siblings, or nothing.
pub proof fn lemma_display_of_one_group(g: Seq<JobV>)
    requires
        g.len() > 0,
        forall|t: int|
            0 <= t < g.len() ==> (#[trigger] g[t]).array_index is Some && g[t].jobid_base
                == g[0].jobid_base,
    ensures
        display_spec(g) == spec_group_lines(g),
{
    let base = g[0].jobid_base;
    let rest = g.drop_first();
    assert forall|t: int|
        0 <= t < rest.len() implies (#[trigger] rest[t]).array_index is Some && rest[t].jobid_base
        == base by {
        assert(rest[t] == g[t + 1]);
    }
    lemma_run_len_eq(rest, base, rest.len() as int);
    let glen = 1 + run_len(rest, base);
    assert(glen == g.len());
    assert(display_spec(g) == spec_group_lines(g.take(glen as int)) + display_spec(
        g.skip(glen as int),
    ));
    let e = Seq::<JobV>::empty();
    assert(g.take(glen as int) =~= g);
    assert(g.skip(glen as int) =~= e);
    assert(display_spec(e) == Seq::<LineV>::empty());
    assert(spec_group_lines(g) + Seq::<LineV>::empty() =~= spec_group_lines(g));
}

/// For a contiguous array-job group, the parent header line appears in the
/// rendered output exactly when at least one sibling of the group passes
/// the display filter.
pub proof fn lemma_parent_header_iff(g: Seq<JobV>)
    requires
        g.len() > 0,
        forall|t: int|
            0 <= t < g.len() ==> (#[trigger] g[t]).array_index is Some && g[t].jobid_base
                == g[0].jobid_base,
    ensures
        display_spec(g).contains(LineV::GroupHeader { text: spec_header_row(g[0]) })
            <==> any_display_ok(g),
{
    lemma_display_of_one_group(g);
    if any_display_ok(g) {
        assert(display_spec(g)[0] == (LineV::GroupHeader { text: spec_header_row(g[0]) }));
        assert(display_spec(g).contains(LineV::GroupHeader { text: spec_header_row(g[0]) }));
    }
}

/// Renders the working set as table lines: the one forward grouping pass.
#[verifier::rlimit(60)]
pub fn render_jobs(jobs: &Vec<Job>) -> (out: Vec<RenderedLine>)
    requires
        forall|i: int| 0 <= i < jobs.deep_view().len() ==> (#[trigger] jobs.deep_view()[i]).wf_ts(),
    ensures
        out.deep_view() == display_spec(jobs.deep_view()),
{
    let ghost all = jobs.deep_view();
    let n = jobs.len();
    let mut out: Vec<RenderedLine> = Vec::new();
    let mut i: usize = 0;
    proof {
        assert(all.skip(0) =~= all);
        assert(out.deep_view() =~= Seq::<LineV>::empty());
        assert(out.deep_view() + display_spec(all) =~= display_spec(all));
    }
    while i < n
        invariant
            i <= n,
            n == jobs@.len(),
            all == jobs.deep_view(),
            all.len() == n,
            forall|t: int| 0 <= t < all.len() ==> (#[trigger] all[t]).wf_ts(),
            display_spec(all) == out.deep_view() + display_spec(all.skip(i as int)),
        decreases n - i,
    {
        proof {
            assert(all.skip(i as int)[0] == all[i as int]);
            assert(all.skip(i as int).drop_first() =~= all.skip(i + 1));
        }
        if jobs[i].array_index.is_none() {
            if display_ok_exec(&jobs[i]) {
                let ghost prev = out.deep_view();
                out.push(job_row(&jobs[i]));
                proof {
                    assert(out.deep_view() =~= prev + seq![job_line(all[i as int])]);
                    assert((prev + seq![job_line(all[i as int])]) + display_spec(all.skip(i + 1))
                        =~= prev + (seq![job_line(all[i as int])] + display_spec(
                        all.skip(i + 1),
                    )));
                }
            } else {
                proof {
                    assert(Seq::<LineV>::empty() + display_spec(all.skip(i + 1)) =~= display_spec(
                        all.skip(i + 1),
                    ));
                }
            }
            i += 1;
        } else {
            let base = jobs[i].jobid_base;
            // scan the contiguous sibling run and check display eligibility
            let mut j = i + 1;
            let mut any = display_ok_exec(&jobs[i]);
            proof {
                let first = all.subrange(i as int, i + 1);
                assert(first.len() == 1 && first[0] == all[i as int]);
                if display_ok(all[i as int]) {
                    assert(any_display_ok(first));
                } else {
                    assert forall|w: int| 0 <= w < first.len() implies !display_ok(
                        #[trigger] first[w],
                    ) by {}
                }
            }
            while j < n && jobs[j].array_index.is_some() && jobs[j].jobid_base == base
                invariant
                    i < j <= n,
                    n == jobs@.len(),
                    all == jobs.deep_view(),
                    all.len() == n,
                    base == all[i as int].jobid_base,
                    forall|t: int|
                        i < t < j ==> (#[trigger] all[t]).array_index is Some && all[t].jobid_base
                            == base,
                    any == any_display_ok(all.subrange(i as int, j as int)),
                decreases n - j,
            {
                let ghost before = all.subrange(i as int, j as int);
                let eligible = display_ok_exec(&jobs[j]);
                proof {
                    let after = all.subrange(i as int, j + 1);
                    assert(after.drop_last() =~= before);
                    assert(after.last() == all[j as int]);
                    if any || eligible {
                        if eligible {
                            assert(display_ok(after[after.len() - 1]));
                        } else {
                            let w = choose|w: int| 0 <= w < before.len() && display_ok(before[w]);
                            assert(display_ok(after[w]));
                        }
                    } else {
                        assert forall|w: int|
                            0 <= w < after.len() implies !display_ok(#[trigger] after[w]) by {
                            if w < before.len() {
                                assert(!display_ok(before[w]));
                            }
                        }
                    }
                }
                any = any || eligible;
                j += 1;
            }
            let ghost gseq = all.subrange(i as int, j as int);
            proof {
                // the scan found exactly the group: entries i..j qualify and
                // j is the first non-member
                let rest = all.skip(i as int).drop_first();
                assert(rest =~= all.skip(i + 1));
                assert forall|t: int|
                    0 <= t < j - i - 1 implies (#[trigger] rest[t]).array_index is Some
                    && rest[t].jobid_base == base by {
                    assert(rest[t] == all[t + i + 1]);
                }
                if j - i - 1 < rest.len() {
                    assert(rest[j - i - 1] == all[j as int]);
                }
                lemma_run_len_eq(rest, base, j - i - 1);
                assert(1 + run_len(rest, base) == j - i);
                assert(all.skip(i as int).take(j - i) =~= gseq);
                assert(all.skip(i as int).skip(j - i) =~= all.skip(j as int));
                assert(display_spec(all.skip(i as int)) == spec_group_lines(gseq) + display_spec(
                    all.skip(j as int),
                ));
            }
            if any {
                let ghost prev = out.deep_view();
                out.push(header_row(&jobs[i]));
                proof {
                    assert(gseq[0] == all[i as int]);
                    assert(out.deep_view() =~= prev + seq![
                        LineV::GroupHeader { text: spec_header_row(gseq[0]) },
                    ]);
                    assert(out.deep_view().take(prev.len() + 1 as int) =~= out.deep_view());
                    assert(out.deep_view().skip(prev.len() + 1 as int)
                        =~= Seq::<LineV>::empty());
                    assert(gseq.skip(0) =~= gseq);
                    assert(Seq::<LineV>::empty() + spec_children(gseq) =~= spec_children(gseq));
                }
                // emit the eligible siblings in encountered order
                let mut t = i;
                while t < j
                    invariant
                        i <= t <= j <= n,
                        n == jobs@.len(),
                        all == jobs.deep_view(),
                        all.len() == n,
                        forall|w: int| 0 <= w < all.len() ==> (#[trigger] all[w]).wf_ts(),
                        gseq == all.subrange(i as int, j as int),
                        out.deep_view().len() >= prev.len() + 1,
                        spec_children(gseq) == out.deep_view().skip(prev.len() + 1 as int)
                            + spec_children(gseq.skip(t - i)),
                        out.deep_view().take(prev.len() + 1 as int) == prev + seq![
                            LineV::GroupHeader { text: spec_header_row(gseq[0]) },
                        ],
                    decreases j - t,
                {
                    proof {
                        assert(gseq.skip(t - i)[0] == gseq[t - i]);
                        assert(gseq[t - i] == all[t as int]);
                        assert(gseq.skip(t - i).drop_first() =~= gseq.skip(t + 1 - i));
                    }
                    if display_ok_exec(&jobs[t]) {
                        let ghost mid = out.deep_view();
                        out.push(job_row(&jobs[t]));
                        proof {
                            assert(out.deep_view() =~= mid + seq![job_line(all[t as int])]);
                            assert(out.deep_view().take(prev.len() + 1 as int) =~= mid.take(
                                prev.len() + 1 as int,
                            ));
                            assert(out.deep_view().skip(prev.len() + 1 as int) =~= mid.skip(
                                prev.len() + 1 as int,
                            ) + seq![job_line(all[t as int])]);
                            assert((mid.skip(prev.len() + 1 as int) + seq![
                                job_line(all[t as int]),
                            ]) + spec_children(gseq.skip(t + 1 - i)) =~= mid.skip(
                                prev.len() + 1 as int,
                            ) + (seq![job_line(all[t as int])] + spec_children(
                                gseq.skip(t + 1 - i),
                            )));
                        }
                    } else {
                        proof {
                            assert(Seq::<LineV>::empty() + spec_children(gseq.skip(t + 1 - i))
                                =~= spec_children(gseq.skip(t + 1 - i)));
                        }
                    }
                    t += 1;
                }
                proof {
                    assert(gseq.skip(j - i) =~= Seq::<JobV>::empty());
                    assert(out.deep_view().skip(prev.len() + 1 as int) + Seq::<LineV>::empty()
                        =~= out.deep_view().skip(prev.len() + 1 as int));
                    assert(out.deep_view() =~= out.deep_view().take(prev.len() + 1 as int)
                        + out.deep_view().skip(prev.len() + 1 as int));
                    assert(out.deep_view() =~= prev + spec_group_lines(gseq));
                    assert((prev + spec_group_lines(gseq)) + display_spec(all.skip(j as int))
                        =~= prev + (spec_group_lines(gseq) + display_spec(all.skip(j as int))));
                }
            } else {
                proof {
                    assert(spec_group_lines(gseq) =~= Seq::<LineV>::empty());
                    assert(Seq::<LineV>::empty() + display_spec(all.skip(j as int))
                        =~= display_spec(all.skip(j as int)));
                }
            }
            i = j;
        }
    }
    proof {
        assert(all.skip(n as int) =~= Seq::<JobV>::empty());
        assert(out.deep_view() + Seq::<LineV>::empty() =~= out.deep_view());
    }
    out
}

} // verus!
