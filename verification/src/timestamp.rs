use crate::json::plain_json_char;
use vstd::prelude::*;

verus! {

/// An instant: milliseconds since the Unix epoch. The library keeps to
/// instants from year 0 up to the end of year 9999 — the span on which the
/// calendar library it relies on renders a plain four-digit RFC 3339 date.
#[derive(Debug, Clone, Copy, PartialEq, Eq, Structural)]
pub struct Timestamp {
    pub millis: i64,
}

impl Timestamp {
    pub open spec fn valid(self) -> bool {
        -62167219200000 <= self.millis <= 253402300799999
    }

    pub fn from_millis(millis: i64) -> (r: Timestamp)
        requires
            -62167219200000 <= millis <= 253402300799999,
        ensures
            r.millis == millis,
            r.valid(),
    {
        Timestamp { millis }
    }
}

/// The RFC 3339 rendering (UTC, `Z` suffix, milliseconds when they are not
/// zero) of the instant `millis` milliseconds after the epoch.
pub uninterp spec fn rfc3339_of(millis: int) -> Seq<char>;

/// The shape every rendering of an admitted instant has: 20 to 24
/// characters, each a plain ASCII character that a JSON string carries as a
/// single unescaped byte.
pub open spec fn rfc3339_short_plain(millis: int) -> bool {
    &&& 20 <= rfc3339_of(millis).len() <= 24
    &&& forall|i: int|
        0 <= i < rfc3339_of(millis).len() ==> plain_json_char(#[trigger] rfc3339_of(millis)[i])
}

/// Relies on chrono's `DateTime::from_timestamp_millis` and
/// `to_rfc3339_opts(AutoSi, true)`: both are deterministic functions of the
/// timestamp alone (UTC; no locale, zone or environment input), and
/// `from_timestamp_millis` is `Some` on every instant [`Timestamp::valid`]
/// admits. For years 0 through 9999 the writer emits the fixed-width
/// `YYYY-MM-DDTHH:MM:SS`, then `.mmm` exactly when the milliseconds are not
/// zero, then `Z`: 20 or 24 characters, all drawn from digits and
/// `-:T.Z` — ASCII that needs no escape inside a JSON string.
#[verifier::external_body]
pub fn rfc3339_string(t: Timestamp) -> (r: String)
    requires
        t.valid(),
    ensures
        r@ == rfc3339_of(t.millis as int),
        20 <= r@.len() <= 24,
        forall|i: int| 0 <= i < r@.len() ==> plain_json_char(#[trigger] r@[i]),
{
    match chrono::DateTime::<chrono::Utc>::from_timestamp_millis(t.millis) {
        Some(dt) => dt.to_rfc3339_opts(chrono::SecondsFormat::AutoSi, true),
        None => String::new(),
    }
}

} // verus!
