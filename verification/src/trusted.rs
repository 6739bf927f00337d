//! What this library takes on trust from the `url` and `time` crates.
//!
//! Verus does not read the code of either crate. Every item in this file
//! stands for one item of theirs, and what it states is believed, not proved.

use vstd::prelude::*;
use time::Timespec;
use url::Url;

verus! {

/// `url::Url`, a parsed URL. Its fields are private to the `url` crate, so a
/// value of it is opaque to the verifier.
///
/// The `url` crate compares, orders and hashes URLs by their serialization
/// alone, and keeps every other field of a `Url` in step with it. This
/// library therefore takes two URLs with one serialization to be one value.
#[verifier::external_type_specification]
#[verifier::external_body]
pub struct ExUrl(url::Url);

/// `time::Timespec`, a point in time as seconds and nanoseconds since the
/// epoch. The library only carries it along, so it is kept opaque.
#[verifier::external_type_specification]
#[verifier::external_body]
pub struct ExTimespec(time::Timespec);

/// Reads the clock with `time::get_time`.
///
/// Nothing is claimed of the instant that comes back: the clock is the
/// system's wall clock, which may be set back between two readings.
#[verifier::external_body]
pub(crate) fn current_time() -> (now: Timespec) {
    time::get_time()
}

/// `Url`'s `==`, which returns whether the serializations of the two URLs
/// are equal.
///
/// The contract claims that it returns whether the two are the same value.
pub assume_specification[ <url::Url as PartialEq>::eq ](a: &Url, b: &Url) -> (same: bool)
    ensures
        same == (*a == *b),
;

/// `Url`'s `clone`, which the `url` crate derives: it copies every field.
///
/// The contract claims that the copy is the same value as the URL it was
/// made from.
pub assume_specification[ <url::Url as Clone>::clone ](url: &Url) -> (copy: Url)
    ensures
        copy == *url,
;

} // verus!
