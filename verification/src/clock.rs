//! The clock that stamps the start of a sandbox.

use time::OffsetDateTime;
use vstd::prelude::*;

verus! {

/// `time::OffsetDateTime`, an instant with its offset from UTC. Nothing is
/// known of what a value holds; instants are only stored, handed on and
/// compared for being the same value.
#[verifier::external_type_specification]
#[verifier::external_body]
pub struct ExOffsetDateTime(OffsetDateTime);

/// `time::OffsetDateTime::now_utc` reads the system clock and takes no
/// argument. Nothing is claimed of the instant that it returns: two calls may
/// give any two instants. It panics only where the system clock stands
/// outside the years that the crate can write down.
pub assume_specification[ OffsetDateTime::now_utc ]() -> (now: OffsetDateTime)
;

} // verus!
