use jobreport::extract::extract_jobs;
use jobreport::ParseError;
use jobreport::Timestamp;

const TS: &str = "2023-04-22T16:15:05";
const TE: &str = "2023-04-22T16:16:05";

fn record(id: &str, state: &str) -> String {
    format!("{id} Name 2 00:01:00 {TS} {TE} {state}")
}

#[test]
fn sub_record_is_discarded_entirely() {
    // one job row followed by its batch sub-record
    let raw = format!(
        "56938942 Name 2 00:01:00 {TS} {TE} COMPLETED \
         56938942.batch batch 2 00:01:00 {TS} {TE} COMPLETED"
    );
    let jobs = extract_jobs(&raw).unwrap();
    assert_eq!(jobs.len(), 1);
    assert_eq!(jobs[0].jobid_base, 56938942);
    assert_eq!(jobs[0].array_index, None);
    assert_eq!(jobs[0].state, "COMPLETED");
    assert_eq!(jobs[0].jobname, "Name");
    assert_eq!(jobs[0].alloccpus, 2);
    assert_eq!(jobs[0].elapsed, "00:01:00");
    assert_eq!(
        jobs[0].start,
        Some(Timestamp {
            year: 2023,
            month: 4,
            day: 22,
            hour: 16,
            minute: 15,
            second: 5
        })
    );
    assert_eq!(
        jobs[0].end,
        Some(Timestamp {
            year: 2023,
            month: 4,
            day: 22,
            hour: 16,
            minute: 16,
            second: 5
        })
    );
}

#[test]
fn running_jobs_are_never_extracted() {
    let raw = format!(
        "{} {}",
        record("1", "RUNNING"),
        record("2", "COMPLETED")
    );
    let jobs = extract_jobs(&raw).unwrap();
    assert_eq!(jobs.len(), 1);
    assert_eq!(jobs[0].jobid_base, 2);
    for j in &jobs {
        assert_ne!(j.state, "RUNNING");
    }
}

#[test]
fn unknown_start_builds_absent_timestamp() {
    let raw = format!("77 Name 4 00:00:09 Unknown Unknown PENDING");
    let jobs = extract_jobs(&raw).unwrap();
    assert_eq!(jobs.len(), 1);
    assert_eq!(jobs[0].start, None);
    assert_eq!(jobs[0].end, None);
}

#[test]
fn array_elements_carry_base_and_index() {
    let raw = format!(
        "{} {}",
        record("56938944_1", "COMPLETED"),
        record("56938944_2", "FAILED")
    );
    let jobs = extract_jobs(&raw).unwrap();
    assert_eq!(jobs.len(), 2);
    assert_eq!(jobs[0].jobid_base, 56938944);
    assert_eq!(jobs[0].array_index, Some(1));
    assert_eq!(jobs[1].array_index, Some(2));
}

#[test]
fn malformed_cpu_count_is_fatal() {
    let raw = format!("11 Name two 00:01:00 {TS} {TE} COMPLETED");
    assert_eq!(extract_jobs(&raw), Err(ParseError::CpuCount));
}

#[test]
fn malformed_start_timestamp_is_fatal() {
    let raw = format!("11 Name 2 00:01:00 2023-04-22 {TE} COMPLETED");
    assert_eq!(extract_jobs(&raw), Err(ParseError::StartTime));
}

#[test]
fn malformed_end_timestamp_is_fatal() {
    let raw = format!("11 Name 2 00:01:00 {TS} sometime COMPLETED");
    assert_eq!(extract_jobs(&raw), Err(ParseError::EndTime));
}

#[test]
fn malformed_field_of_a_discarded_record_is_harmless() {
    // the sub-record has a bad CPU field, but it is never promoted
    let raw = format!(
        "12 Name 2 00:01:00 {TS} {TE} COMPLETED \
         12.batch batch two 00:01:00 bad worse COMPLETED"
    );
    let jobs = extract_jobs(&raw).unwrap();
    assert_eq!(jobs.len(), 1);
}

#[test]
fn short_tail_is_dropped() {
    let raw = format!("{} 99 Name 2", record("5", "FAILED"));
    let jobs = extract_jobs(&raw).unwrap();
    assert_eq!(jobs.len(), 1);
    assert_eq!(jobs[0].jobid_base, 5);
}

#[test]
fn empty_input_yields_no_jobs() {
    assert_eq!(extract_jobs("").unwrap().len(), 0);
    assert_eq!(extract_jobs("   \n\t ").unwrap().len(), 0);
}

#[test]
fn job_equality_is_the_identifier_pair() {
    let raw = format!(
        "{} {}",
        record("21_3", "COMPLETED"),
        record("21_3", "FAILED")
    );
    let jobs = extract_jobs(&raw).unwrap();
    assert_eq!(jobs.len(), 2);
    // name and state differ in nothing, state differs: still the same job
    assert_eq!(jobs[0], jobs[1]);

    let raw2 = format!("{} {}", record("21_3", "FAILED"), record("21_4", "FAILED"));
    let other = extract_jobs(&raw2).unwrap();
    assert_ne!(other[0], other[1]);

    let raw3 = format!("{} {}", record("21", "FAILED"), record("21_3", "FAILED"));
    let mixed = extract_jobs(&raw3).unwrap();
    // a singular job and an array element never compare equal
    assert_ne!(mixed[0], mixed[1]);
}
