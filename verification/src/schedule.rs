//! The schedule resolver's decision logic: a schedule name must match exactly
//! one schedule of the provider's search result, or the resolution fails.

use vstd::prelude::*;
use crate::error::Error;

verus! {

/// A schedule as the roster provider returns it: an opaque identifier.
#[derive(Clone, Debug, PartialEq, Eq, Hash)]
pub struct Schedule {
    pub id: String,
}

/// Resolves a schedule name against the provider's search result. Exactly one
/// match is required: zero matches fail with the name, two or more fail with
/// the name and the count — ambiguity is never resolved by picking the first.
pub fn resolve_schedule_id(schedule_name: &String, schedules: &Vec<Schedule>) -> (r: Result<
    String,
    Error,
>)
    ensures
        schedules@.len() == 1 ==> (r matches Ok(id) && id@ == schedules@[0].id@),
        schedules@.len() == 0 ==> (r matches Err(e) && e matches Error::ScheduleNotFound {
            schedule_name: n,
        } && n@ == schedule_name@),
        schedules@.len() > 1 ==> (r matches Err(e) && e matches Error::TooManySchedulesFound {
            schedule_name: n,
            schedules_found: c,
        } && n@ == schedule_name@ && c == schedules@.len()),
{
    if schedules.len() == 0 {
        Err(Error::ScheduleNotFound { schedule_name: schedule_name.clone() })
    } else if schedules.len() > 1 {
        Err(
            Error::TooManySchedulesFound {
                schedule_name: schedule_name.clone(),
                schedules_found: schedules.len(),
            },
        )
    } else {
        Ok(schedules[0].id.clone())
    }
}

} // verus!
