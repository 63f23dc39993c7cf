use vstd::prelude::*;

verus! {

/// The epoch-millisecond reading of an absolute datetime string: `Some(ms)`
/// when the text is a well-formed datetime that carries an explicit offset
/// designator, `None` otherwise. The reading is fixed by the characters of the
/// string alone.
pub uninterp spec fn utc_ms_of(s: Seq<char>) -> Option<i64>;

/// Whether the text parses as an absolute datetime. A bare local-time string,
/// one without an explicit offset designator such as the `Z` suffix, does not.
pub open spec fn is_datetime_string(s: Seq<char>) -> bool {
    utc_ms_of(s) is Some
}

/// Relies on chrono: `str::parse::<DateTime<Utc>>` (a relaxed RFC3339 parser
/// that rejects strings without an explicit offset) followed by
/// `DateTime::timestamp_millis`. Both depend on the characters of the string
/// alone, and neither panics.
#[verifier::external_body]
pub(crate) fn parse_datetime_ms(dt: &str) -> (r: Option<i64>)
    ensures
        r == utc_ms_of(dt@),
{
    match dt.parse::<chrono::DateTime<chrono::Utc>>() {
        Ok(t) => Some(t.timestamp_millis()),
        Err(_) => None,
    }
}

} // verus!
