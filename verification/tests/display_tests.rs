use jobreport::display::header_line;
use jobreport::display::render_jobs;
use jobreport::Job;
use jobreport::RenderedLine;
use jobreport::Timestamp;

fn ts(h: u8, m: u8) -> Timestamp {
    Timestamp {
        year: 2023,
        month: 4,
        day: 22,
        hour: h,
        minute: m,
        second: 5,
    }
}

fn job(base: u64, idx: Option<u64>, name: &str, state: &str) -> Job {
    Job {
        jobid_base: base,
        array_index: idx,
        jobname: name.to_string(),
        alloccpus: 2,
        elapsed: "00:01:00".to_string(),
        start: Some(ts(16, 15)),
        end: Some(ts(16, 16)),
        state: state.to_string(),
    }
}

fn row_text(line: &RenderedLine) -> &str {
    match line {
        RenderedLine::JobRow { text, .. } => text,
        RenderedLine::GroupHeader { text } => text,
    }
}

#[test]
fn singular_job_renders_one_row() {
    let jobs = vec![job(56938942, None, "Name", "COMPLETED")];
    let out = render_jobs(&jobs);
    assert_eq!(out.len(), 1);
    let expected = format!(
        "{:<9} {:<23} {:<6} {:<13} {:<13} {:<14} {}",
        "56938942", "Name", "2", "00:01:00", "Apr-22 16:15", "Apr-22 16:16", "COMPLETED"
    );
    match &out[0] {
        RenderedLine::JobRow { text, completed } => {
            assert_eq!(text, &expected);
            assert!(*completed);
        }
        _ => panic!("expected a job row"),
    }
}

#[test]
fn failed_state_is_not_marked_completed() {
    let jobs = vec![job(1, None, "n", "FAILED")];
    let out = render_jobs(&jobs);
    match &out[0] {
        RenderedLine::JobRow { completed, .. } => assert!(!*completed),
        _ => panic!("expected a job row"),
    }
}

#[test]
fn array_group_renders_header_then_children_in_order() {
    let jobs = vec![
        job(56938944, Some(1), "Name", "COMPLETED"),
        job(56938944, Some(2), "Name", "COMPLETED"),
    ];
    let out = render_jobs(&jobs);
    assert_eq!(out.len(), 3);
    match &out[0] {
        RenderedLine::GroupHeader { text } => {
            assert_eq!(text, &format!("{:<9} {}", "56938944", "Name"));
        }
        _ => panic!("expected the parent header first"),
    }
    assert!(row_text(&out[1]).starts_with("  56938944_1 "));
    assert!(row_text(&out[2]).starts_with("  56938944_2 "));
}

#[test]
fn group_with_no_eligible_sibling_is_omitted_entirely() {
    let jobs = vec![
        job(31, Some(1), "n", "PENDING"),
        job(31, Some(2), "n", "CANCELLED+"),
    ];
    let out = render_jobs(&jobs);
    assert_eq!(out.len(), 0);
}

#[test]
fn group_with_one_eligible_sibling_keeps_header_and_hides_the_rest() {
    let jobs = vec![
        job(31, Some(1), "n", "PENDING"),
        job(31, Some(2), "n", "FAILED"),
        job(31, Some(3), "n", "PENDING"),
    ];
    let out = render_jobs(&jobs);
    assert_eq!(out.len(), 2);
    assert!(matches!(&out[0], RenderedLine::GroupHeader { .. }));
    assert!(row_text(&out[1]).starts_with("  31_2 "));
}

#[test]
fn display_filter_hides_pending_and_cancelled_singulars() {
    let jobs = vec![
        job(1, None, "n", "PENDING"),
        job(2, None, "n", "CANCELLED+"),
        job(3, None, "n", "TIMEOUT"),
    ];
    let out = render_jobs(&jobs);
    assert_eq!(out.len(), 1);
    assert!(row_text(&out[0]).starts_with("3 "));
}

#[test]
fn distinct_bases_make_distinct_groups() {
    let jobs = vec![
        job(41, Some(1), "a", "COMPLETED"),
        job(42, Some(1), "b", "COMPLETED"),
    ];
    let out = render_jobs(&jobs);
    // two groups of one sibling each, each under its own header
    assert_eq!(out.len(), 4);
    assert!(matches!(&out[0], RenderedLine::GroupHeader { .. }));
    assert!(matches!(&out[2], RenderedLine::GroupHeader { .. }));
}

#[test]
fn singular_between_siblings_splits_the_group() {
    let jobs = vec![
        job(51, Some(1), "a", "COMPLETED"),
        job(51, None, "b", "COMPLETED"),
        job(51, Some(2), "a", "COMPLETED"),
    ];
    let out = render_jobs(&jobs);
    // header + child, the singular row, then header + child again
    assert_eq!(out.len(), 5);
}

#[test]
fn absent_timestamps_render_their_markers() {
    let mut j = job(61, None, "n", "FAILED");
    j.start = None;
    j.end = None;
    let out = render_jobs(&vec![j]);
    let text = row_text(&out[0]);
    assert!(text.contains("not started"));
    assert!(text.contains("unknown"));
}

#[test]
fn header_line_matches_the_columns() {
    let expected = format!(
        "{:<9} {:<23} {:<6} {:<13} {:<13} {:<14} {}",
        "Job ID", "Job Name", "CPUs", "Elapsed", "Start", "End", "State"
    );
    assert_eq!(header_line(), expected);
}

#[test]
fn brief_text_renders_month_abbreviation() {
    let t = Timestamp {
        year: 2023,
        month: 12,
        day: 3,
        hour: 7,
        minute: 9,
        second: 59,
    };
    assert_eq!(t.brief_text(), "Dec-03 07:09");
}
