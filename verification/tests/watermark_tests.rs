use jobreport::watermark::resolve_watermark;
use jobreport::ParseError;
use jobreport::SessionStart;
use jobreport::Timestamp;

fn now() -> Timestamp {
    Timestamp {
        year: 2026,
        month: 1,
        day: 2,
        hour: 3,
        minute: 4,
        second: 5,
    }
}

#[test]
fn no_state_falls_back_to_local_midnight() {
    let r = resolve_watermark(None, now()).unwrap();
    assert_eq!(
        r,
        SessionStart {
            session: Timestamp {
                year: 2026,
                month: 1,
                day: 2,
                hour: 0,
                minute: 0,
                second: 0
            },
            heal: false
        }
    );
}

#[test]
fn empty_state_self_heals_to_now() {
    let r = resolve_watermark(Some(""), now()).unwrap();
    assert_eq!(
        r,
        SessionStart {
            session: now(),
            heal: true
        }
    );
}

#[test]
fn stored_state_is_parsed() {
    let r = resolve_watermark(Some("2023-04-22 16:15:05"), now()).unwrap();
    assert_eq!(
        r,
        SessionStart {
            session: Timestamp {
                year: 2023,
                month: 4,
                day: 22,
                hour: 16,
                minute: 15,
                second: 5
            },
            heal: false
        }
    );
}

#[test]
fn corrupt_state_is_fatal() {
    assert_eq!(
        resolve_watermark(Some("yesterday"), now()),
        Err(ParseError::Watermark)
    );
    // the accounting tool's own timestamp format is not the watermark format
    assert_eq!(
        resolve_watermark(Some("2023-04-22T16:15:05"), now()),
        Err(ParseError::Watermark)
    );
}

#[test]
fn watermark_text_round_trips_through_resolve() {
    let text = now().watermark_text();
    assert_eq!(text, "2026-01-02 03:04:05");
    let r = resolve_watermark(Some(&text), now()).unwrap();
    assert_eq!(r.session, now());
    assert!(!r.heal);
}

#[test]
fn impossible_calendar_dates_do_not_parse() {
    assert_eq!(
        resolve_watermark(Some("2023-02-30 00:00:00"), now()),
        Err(ParseError::Watermark)
    );
    assert_eq!(
        resolve_watermark(Some("2023-13-01 00:00:00"), now()),
        Err(ParseError::Watermark)
    );
}
