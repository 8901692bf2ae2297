//! The subscriber store: the shape of persisted subscriber rows and the
//! invariants of the one insert the service issues.
//!
//! A row's id and timestamp are generated server-side at insert time,
//! never supplied by the caller; email and name are stored exactly as
//! submitted. The store deduplicates nothing: two submissions with the
//! same email and name yield two rows, told apart by their ids.

use vstd::prelude::*;
use crate::form::FormData;

verus! {

/// A failure of the store during an insert. The cause is kept for
/// operator diagnostics; the handler never surfaces it to the client.
pub struct StoreError {
    /// Driver-level detail, for logs only.
    pub cause: String,
}

/// A subscriber row as persisted in the subscriptions table.
pub struct SubscriptionRow {
    /// Server-generated random version-4 UUID, hyphenated lowercase text.
    pub id: String,
    /// The submitted email, unchanged.
    pub email: String,
    /// The submitted name, unchanged.
    pub name: String,
    /// Insert-time UTC timestamp, milliseconds since the Unix epoch.
    pub subscribed_at_millis: i64,
}

/// True of a lowercase hex digit.
pub open spec fn is_hex_char(c: char) -> bool {
    ('0' <= c && c <= '9') || ('a' <= c && c <= 'f')
}

/// True of the text of a hyphenated version-4 UUID: 36 characters,
/// hyphens at positions 8, 13, 18 and 23, lowercase hex digits
/// everywhere else, and the version digit `4` at position 14.
pub open spec fn is_uuid_text(s: Seq<char>) -> bool {
    &&& s.len() == 36
    &&& forall|i: int|
        0 <= i < 36 ==> if i == 8 || i == 13 || i == 18 || i == 23 {
            #[trigger] s[i] == '-'
        } else {
            is_hex_char(s[i])
        }
    &&& s[14] == '4'
}

/// Relies on `uuid::Uuid::new_v4` and its hyphenated lowercase `Display`
/// form: a fresh random version-4 UUID as 36 characters of lowercase hex
/// and hyphens. Which UUID comes back is random; nothing more is claimed.
#[verifier::external_body]
pub(crate) fn fresh_uuid_text() -> (r: String)
    ensures
        is_uuid_text(r@),
{
    uuid::Uuid::new_v4().to_string()
}

/// Relies on `chrono::Utc::now`: the current UTC wall-clock instant in
/// milliseconds since the Unix epoch. Nothing can be promised of a clock
/// reading, so no contract is stated.
#[verifier::external_body]
pub(crate) fn now_millis() -> i64 {
    chrono::Utc::now().timestamp_millis()
}

/// The row an accepted submission inserts: a fresh server-generated id,
/// the current timestamp, and the submitted email and name unchanged.
pub fn new_subscription_row(form: &FormData) -> (r: SubscriptionRow)
    ensures
        r.email@ == form.email@,
        r.name@ == form.name@,
        is_uuid_text(r.id@),
{
    SubscriptionRow {
        id: fresh_uuid_text(),
        email: form.email.clone(),
        name: form.name.clone(),
        subscribed_at_millis: now_millis(),
    }
}

/// The one SQL statement the store issues.
pub fn insert_statement() -> (r: &'static str)
    ensures
        r@ == "INSERT INTO subscriptions (id, email, name, subscribed_at) VALUES ($1, $2, $3, $4)"@,
{
    "INSERT INTO subscriptions (id, email, name, subscribed_at) VALUES ($1, $2, $3, $4)"
}

/// The store deduplicates nothing: two rows whose generated ids differ
/// are two distinct rows, even when their email, name and timestamp are
/// identical. This is current behaviour, not a statement that duplicate
/// submissions are desirable.
pub proof fn law_distinct_ids_distinct_rows(a: SubscriptionRow, b: SubscriptionRow)
    requires
        a.id@ != b.id@,
    ensures
        a != b,
{
}

} // verus!
