//! The watermark: the persisted timestamp separating already-reported jobs
//! from new ones. This module holds the decision logic; reading and writing
//! the state file is the caller's side of the boundary.

use vstd::prelude::*;

use crate::datetime::parse_datetime;
use crate::datetime::spec_parsed_datetime;
use crate::datetime::spec_watermark_format;
use crate::datetime::ts_of_fields;
use crate::datetime::watermark_format;
use crate::job::ParseError;
use crate::timestamp::Timestamp;

verus! {

/// Where this session's window starts, and whether the state file must be
/// rewritten with the current time right away (self-healing on empty state).
#[derive(Clone, Copy, PartialEq, Eq, Structural, Debug)]
pub struct SessionStart {
    pub session: Timestamp,
    pub heal: bool,
}

/// Decides the session start from the persisted watermark text.
/// No persisted state falls back to the current local midnight; persisted
/// but empty state self-heals to `now` and asks for an immediate rewrite;
/// anything else must parse in the watermark format or the run aborts.
pub fn resolve_watermark(persisted: Option<&str>, now: Timestamp) -> (r: Result<
    SessionStart,
    ParseError,
>)
    ensures
        match persisted {
            None => r == Ok::<SessionStart, ParseError>(
                SessionStart { session: now.spec_midnight(), heal: false },
            ),
            Some(s) => if s@.len() == 0 {
                r == Ok::<SessionStart, ParseError>(SessionStart { session: now, heal: true })
            } else {
                match spec_parsed_datetime(s@, spec_watermark_format()) {
                    Some(f) => r == Ok::<SessionStart, ParseError>(
                        SessionStart { session: ts_of_fields(f), heal: false },
                    ) && ts_of_fields(f).wf(),
                    None => r == Err::<SessionStart, ParseError>(ParseError::Watermark),
                }
            },
        },
{
    match persisted {
        None => Ok(SessionStart { session: now.midnight(), heal: false }),
        Some(s) => {
            if s.is_empty() {
                Ok(SessionStart { session: now, heal: true })
            } else {
                match parse_datetime(s, watermark_format()) {
                    Some(t) => {
                        proof {
                            assert(ts_of_fields(t.as_fields()) == t);
                        }
                        Ok(SessionStart { session: t, heal: false })
                    },
                    None => Err(ParseError::Watermark),
                }
            }
        },
    }
}

} // verus!
