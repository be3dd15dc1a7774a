//! Declarations of outside types and the calls into outside crates that several modules share.
use vstd::prelude::*;

verus! {

/// A fresh random identifier: `uuid::Uuid::new_v4()` rendered by its `Display`
/// impl, which writes the hyphenated form (32 hex digits and 4 hyphens).
/// Nothing is promised of which identifier comes back.
#[verifier::external_body]
pub(crate) fn new_uuid() -> (r: String)
    ensures
        r@.len() == 36,
{
    uuid::Uuid::new_v4().to_string()
}

/// The current time as milliseconds since the Unix epoch
/// (`chrono::Local::now().timestamp_millis()`); nothing is promised of its value.
#[verifier::external_body]
pub(crate) fn now_millis() -> i64 {
    chrono::Local::now().timestamp_millis()
}

/// Milliseconds since the Unix epoch by the system clock
/// (`SystemTime::now().duration_since(UNIX_EPOCH)`, 0 when the clock is before the epoch);
/// nothing is promised of its value.
#[verifier::external_body]
pub(crate) fn system_time_millis() -> u128 {
    std::time::SystemTime::now().duration_since(std::time::UNIX_EPOCH).unwrap_or_default().as_millis()
}

/// A number from a freshly seeded hasher: `RandomState::new().build_hasher().finish()`
/// (std); nothing is promised of its value.
#[verifier::external_body]
pub(crate) fn random_u64() -> u64 {
    std::hash::Hasher::finish(&std::hash::BuildHasher::build_hasher(
        &std::collections::hash_map::RandomState::new(),
    ))
}

/// Today's local date as `chrono::Local::now().format("%Y-%m-%d")` writes it;
/// nothing is promised of its value.
#[verifier::external_body]
pub(crate) fn today_date() -> String {
    chrono::Local::now().format("%Y-%m-%d").to_string()
}

/// The path `std::path::Path::join` makes of a directory and a name, as text.
pub uninterp spec fn spec_path_join(dir: Seq<char>, name: Seq<char>) -> Seq<char>;

/// `Path::new(dir).join(name)` (std), as text; the joined path is left to the name
/// `spec_path_join`.
#[verifier::external_body]
pub(crate) fn path_join(dir: &str, name: &str) -> (r: String)
    ensures
        r@ == spec_path_join(dir@, name@),
{
    std::path::Path::new(dir).join(name).to_string_lossy().into_owned()
}

} // verus!
