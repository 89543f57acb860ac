//! The clock and the source of fresh identifiers.
use vstd::prelude::*;
use crate::types::Timestamp;

verus! {

/// A lowercase hexadecimal digit.
pub open spec fn lower_hex_digit(c: char) -> bool {
    ('0' <= c && c <= '9') || ('a' <= c && c <= 'f')
}

/// The hyphenated lowercase text of a version-4 UUID: 36 characters, with
/// hyphens at 8, 13, 18 and 23, the version digit `4` at 14, a variant digit
/// of `8`, `9`, `a` or `b` at 19, and lowercase hexadecimal digits elsewhere.
pub open spec fn v4_uuid_text(s: Seq<char>) -> bool {
    &&& s.len() == 36
    &&& forall|i: int|
        0 <= i < 36 ==> if i == 8 || i == 13 || i == 18 || i == 23 {
            s[i] == '-'
        } else {
            lower_hex_digit(#[trigger] s[i])
        }
    &&& s[14] == '4'
    &&& (s[19] == '8' || s[19] == '9' || s[19] == 'a' || s[19] == 'b')
}

/// The current time in milliseconds since the Unix epoch, read as
/// `chrono::DateTime::<Utc>::from(SystemTime::now())`. Nothing is promised
/// of the value: it is whatever the system clock says, negative for a clock
/// set before the epoch (this conversion maps such a clock to a time before
/// 1970 where `Utc::now` would panic).
#[verifier::external_body]
pub(crate) fn now() -> (t: Timestamp) {
    Timestamp { millis: chrono::DateTime::<chrono::Utc>::from(std::time::SystemTime::now()).timestamp_millis() }
}

/// A fresh random identifier from `uuid::Uuid::new_v4`, in its hyphenated
/// text form (`Display`). The value is random; what every outcome shares is
/// its shape: `new_v4` fixes the version nibble to 4 and the variant bits to
/// `10`, and the text is lowercase and hyphenated.
#[verifier::external_body]
pub(crate) fn new_uuid() -> (id: String)
    ensures
        v4_uuid_text(id@),
{
    uuid::Uuid::new_v4().to_string()
}

} // verus!
