use vstd::prelude::*;

verus! {

/// Identity under which events are published.
pub const REPORTER: &'static str = "annotations-controller";

/// What the status surface shows: when the last reconciliation started and
/// who reports events.
pub struct Diagnostics {
    /// Milliseconds since the Unix epoch, UTC.
    pub last_event_millis: i64,
    pub reporter: String,
}

/// Relies on `chrono::Utc::now` and `DateTime::timestamp_millis`: the current
/// time in milliseconds since the epoch. Nothing is promised of its value.
#[verifier::external_body]
fn now_millis() -> (r: i64) {
    chrono::Utc::now().timestamp_millis()
}

impl Diagnostics {
    /// Records that a reconciliation started at `now_millis`.
    pub fn touch(&mut self, now_millis: i64)
        ensures
            final(self).last_event_millis == now_millis,
            final(self).reporter == old(self).reporter,
    {
        self.last_event_millis = now_millis;
    }

    /// Records that a reconciliation starts now.
    pub fn touch_now(&mut self)
        ensures
            final(self).reporter == old(self).reporter,
    {
        let now = now_millis();
        self.touch(now);
    }
}

impl Default for Diagnostics {
    /// Stamped with the current time, reporting as the controller.
    fn default() -> (r: Self)
        ensures
            r.reporter@ == REPORTER@,
    {
        Diagnostics { last_event_millis: now_millis(), reporter: String::from_str(REPORTER) }
    }
}

} // verus!
