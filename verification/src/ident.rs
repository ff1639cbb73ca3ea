//! Identifiers and timestamps, and where fresh ones come from.

use vstd::prelude::*;

verus! {

/// An identifier of a record: the 128 bits of a UUID.
pub type Id = u128;

/// A point in time, in microseconds since the Unix epoch.
pub type Timestamp = i64;

/// The `width` lowest base-256 digits of `value`, most significant first.
pub open spec fn big_endian(value: nat, width: nat) -> Seq<u8>
    decreases width,
{
    if width == 0 {
        Seq::empty()
    } else {
        big_endian(value / 256, (width - 1) as nat).push((value % 256) as u8)
    }
}

/// Draws a random version-4 UUID with `uuid::Uuid::new_v4`.
///
/// Nothing is claimed of the identifier drawn: callers test it against the
/// records they hold. `uuid` panics if the system's source of randomness fails.
#[verifier::external_body]
pub(crate) fn fresh_id() -> (id: Id) {
    uuid::Uuid::new_v4().as_u128()
}

/// Draws `count` random identifiers, one after the other.
pub(crate) fn fresh_ids(count: usize) -> (ids: Vec<Id>)
    ensures
        ids@.len() == count,
{
    let mut ids: Vec<Id> = Vec::new();
    while ids.len() < count
        invariant
            ids@.len() <= count,
        decreases count - ids@.len(),
    {
        ids.push(fresh_id());
    }
    ids
}

/// Reads the clock with `chrono::Utc::now`, in microseconds.
///
/// Nothing is claimed of the time read; two readings need not differ, nor
/// grow. `chrono` panics if the system clock stands before the Unix epoch.
#[verifier::external_body]
pub(crate) fn current_time() -> (now: Timestamp) {
    chrono::Utc::now().timestamp_micros()
}

/// The sixteen bytes of the UUID with the value `id`, as `uuid::Uuid::as_bytes`
/// gives them: `uuid` keeps the value in big-endian order.
#[verifier::external_body]
pub(crate) fn id_bytes(id: Id) -> (bytes: Vec<u8>)
    ensures
        bytes@ == big_endian(id as nat, 16),
{
    uuid::Uuid::from_u128(id).as_bytes().to_vec()
}

} // verus!
