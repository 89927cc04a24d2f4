use jobreport::pipeline::run_pipeline;
use jobreport::ParseError;
use jobreport::RenderedLine;
use jobreport::Timestamp;

const TS: &str = "2023-04-22T16:15:05";
const TE: &str = "2023-04-22T16:16:05";

fn now() -> Timestamp {
    Timestamp {
        year: 2026,
        month: 10,
        day: 12,
        hour: 20,
        minute: 30,
        second: 40,
    }
}

#[test]
fn log_counts_extracted_jobs_not_displayed_ones() {
    // CANCELLED+ is hidden from the table but stays in the audit log;
    // RUNNING is not extracted at all
    let raw = format!(
        "1 a 2 00:01:00 {TS} {TE} COMPLETED \
         2 b 2 00:01:00 {TS} {TE} CANCELLED+ \
         3 c 2 00:01:00 {TS} {TE} RUNNING"
    );
    let out = run_pipeline(&raw, now()).unwrap();
    assert_eq!(out.jobs.len(), 2);
    assert_eq!(out.log_entries.len(), 2);
    assert_eq!(out.display.len(), 1);
}

#[test]
fn log_lines_carry_all_fields_in_order() {
    let raw = format!("9_4 a 3 01:02:03 {TS} Unknown FAILED");
    let out = run_pipeline(&raw, now()).unwrap();
    assert_eq!(out.log_entries.len(), 1);
    assert_eq!(
        out.log_entries[0],
        "9_4;a;3;01:02:03;2023-04-22 16:15:05;none;FAILED"
    );
}

#[test]
fn watermark_is_now_even_with_no_jobs() {
    let out = run_pipeline("", now()).unwrap();
    assert_eq!(out.jobs.len(), 0);
    assert_eq!(out.new_watermark, "2026-10-12 20:30:40");
}

#[test]
fn watermark_is_now_with_many_jobs() {
    let raw = format!(
        "1 a 2 00:01:00 {TS} {TE} COMPLETED 2 b 2 00:01:00 {TS} {TE} FAILED"
    );
    let out = run_pipeline(&raw, now()).unwrap();
    assert_eq!(out.jobs.len(), 2);
    assert_eq!(out.new_watermark, "2026-10-12 20:30:40");
}

#[test]
fn pipeline_propagates_the_first_error() {
    let raw = format!(
        "1 a 2 00:01:00 {TS} {TE} COMPLETED 2 b nan 00:01:00 {TS} {TE} FAILED"
    );
    match run_pipeline(&raw, now()) {
        Err(e) => assert_eq!(e, ParseError::CpuCount),
        Ok(_) => panic!("a malformed CPU field must abort the run"),
    }
}

#[test]
fn contiguous_siblings_group_under_one_header() {
    let raw = format!(
        "56938944_1 Name 2 00:01:00 {TS} {TE} COMPLETED \
         56938944_2 Name 2 00:01:00 {TS} {TE} COMPLETED"
    );
    let out = run_pipeline(&raw, now()).unwrap();
    assert_eq!(out.display.len(), 3);
    match &out.display[0] {
        RenderedLine::GroupHeader { text } => assert!(text.starts_with("56938944 ")),
        _ => panic!("expected the parent header first"),
    }
}

#[test]
fn unknown_start_renders_the_not_started_marker() {
    let raw = format!("77 n 1 00:00:01 Unknown {TE} FAILED");
    let out = run_pipeline(&raw, now()).unwrap();
    assert_eq!(out.jobs[0].start, None);
    match &out.display[0] {
        RenderedLine::JobRow { text, .. } => assert!(text.contains("not started")),
        _ => panic!("expected a job row"),
    }
}
