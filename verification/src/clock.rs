use vstd::prelude::*;

verus! {

/// Relies on `chrono::Local::now` and `DateTime::timestamp_millis`: the
/// current wall-clock instant in milliseconds since the Unix epoch. The
/// result depends on the clock, so nothing is claimed of it; callers state
/// what holds for every reading.
#[verifier::external_body]
pub(crate) fn now_millis() -> i64 {
    chrono::Local::now().timestamp_millis()
}

/// Relies on `chrono::TimeZone::timestamp_millis_opt` and `DateTime::format`
/// with `"%H:%M:%S"`: renders an instant as local wall-clock text, or empty
/// text for an instant the local calendar cannot place. The local time zone
/// makes the digits machine-dependent, so only the shape is claimed.
#[verifier::external_body]
pub(crate) fn clock_text(ms: i64) -> (r: String)
    ensures
        r@.len() == 8 || r@.len() == 0,
{
    match chrono::TimeZone::timestamp_millis_opt(&chrono::Local, ms) {
        chrono::LocalResult::Single(dt) => dt.format("%H:%M:%S").to_string(),
        _ => String::new(),
    }
}

} // verus!
