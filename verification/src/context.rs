//! Call-site metadata: the service and component names attached to every
//! emitted record or span, and the UTC timestamp field that accompanies them.

use vstd::prelude::*;
use crate::filter::ascii_digit;

verus! {

/// The shape of an RFC 3339 timestamp with a numeric offset, as the time
/// rendering always produces: a date of digits and dashes (the year may run
/// to more than four digits, with an explicit sign when out of range), a `T`,
/// a time of digits and colons, optional fractional seconds, and a numeric
/// `+hh:mm`/`-hh:mm` offset at the end.
pub open spec fn rfc3339_shape(s: Seq<char>) -> bool {
    &&& s.len() >= 25
    &&& (ascii_digit(s[0]) || s[0] == '+' || s[0] == '-')
    &&& exists|i: int|
        {
            &&& 10 <= i
            &&& i + 9 <= s.len() - 6
            &&& #[trigger] s[i] == 'T'
            &&& s[i - 6] == '-' && s[i - 3] == '-'
            &&& ascii_digit(s[i - 5]) && ascii_digit(s[i - 4]) && ascii_digit(s[i - 2])
                && ascii_digit(s[i - 1])
            &&& s[i + 3] == ':' && s[i + 6] == ':'
            &&& ascii_digit(s[i + 1]) && ascii_digit(s[i + 2]) && ascii_digit(s[i + 4])
                && ascii_digit(s[i + 5]) && ascii_digit(s[i + 7]) && ascii_digit(s[i + 8])
        }
    &&& (s[s.len() - 6] == '+' || s[s.len() - 6] == '-')
    &&& ascii_digit(s[s.len() - 5]) && ascii_digit(s[s.len() - 4])
    &&& s[s.len() - 3] == ':'
    &&& ascii_digit(s[s.len() - 2]) && ascii_digit(s[s.len() - 1])
}

/// Relies on `chrono::Utc::now` for the current instant and on
/// `DateTime::to_rfc3339` to render it.  Nothing is assumed about the
/// instant itself; whatever it is, the rendering writes a dash-separated
/// date, a `T`, a colon-separated time, optional fractional seconds and a
/// numeric offset, so it is non-empty and has the RFC 3339 shape.
#[verifier::external_body]
fn utc_now_rfc3339() -> (r: String)
    ensures
        r@.len() > 0,
        rfc3339_shape(r@),
{
    chrono::Utc::now().to_rfc3339()
}

/// The current UTC time as an RFC 3339 timestamp string: never empty, and
/// always of the RFC 3339 shape (date, `T`, time, numeric offset).
pub fn current_timestamp() -> (r: String)
    ensures
        r@.len() > 0,
        rfc3339_shape(r@),
{
    utc_now_rfc3339()
}

/// The constant metadata a call site attaches to every record and span it
/// emits, alongside the timestamp.
pub struct LogContext {
    pub service: String,
    pub component: String,
}

impl LogContext {
    /// Both metadata fields are non-empty, so every record or span they
    /// decorate carries a non-empty service and a non-empty component.
    pub open spec fn wf(self) -> bool {
        self.service@.len() > 0 && self.component@.len() > 0
    }

    /// Make the metadata for a call site; service and component must name
    /// something.
    pub fn new(service: &str, component: &str) -> (c: LogContext)
        requires
            service@.len() > 0,
            component@.len() > 0,
        ensures
            c.wf(),
            c.service@ == service@,
            c.component@ == component@,
    {
        LogContext { service: service.to_owned(), component: component.to_owned() }
    }
}

} // verus!
