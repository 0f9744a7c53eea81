//! The local response cache: one file per series, `{cdid}.{ext}`,
//! refreshed after 24 hours.

use vstd::prelude::*;

use crate::text::{ascii_lowercase, to_lowercase, unicode_lowercase};

verus! {

/// How long a cached response stays fresh, in seconds: 24 hours.
pub const MAX_AGE_SECS: u64 = 86400;

/// The cache file name of a series: its CDID in lowercase, a `.`, and the
/// extension.
pub open spec fn cache_file_name(cdid: Seq<char>, ext: Seq<char>) -> Seq<char> {
    unicode_lowercase(cdid) + seq!['.'] + ext
}

/// The cache file name of a series.
pub fn file_name(cdid: &str, ext: &str) -> (r: String)
    ensures
        r@ == cache_file_name(cdid@, ext@),
        vstd::utf8::is_ascii_chars(cdid@) ==> r@ == ascii_lowercase(cdid@) + seq!['.'] + ext@,
{
    let mut name = to_lowercase(cdid);
    proof {
        reveal_strlit(".");
    }
    name.append(".");
    name.append(ext);
    assert(name@ =~= cache_file_name(cdid@, ext@));
    name
}

/// An age in whole seconds and nanoseconds, as `std::time::Duration` holds it.
pub open spec fn age_nanos(secs: u64, nanos: u32) -> int {
    secs * 1_000_000_000 + nanos
}

/// Whether a cached response of age `age` (seconds and nanoseconds) is too
/// old to use when responses are kept for `max_age`: only a response younger
/// than `max_age` is fresh, so with a zero `max_age` everything is stale.
pub fn is_stale(age_secs: u64, age_subsec_nanos: u32, max_age_secs: u64, max_age_subsec_nanos: u32) -> (r: bool)
    requires
        age_subsec_nanos < 1_000_000_000,
        max_age_subsec_nanos < 1_000_000_000,
    ensures
        r == (age_nanos(age_secs, age_subsec_nanos) >= age_nanos(max_age_secs, max_age_subsec_nanos)),
{
    age_secs > max_age_secs || (age_secs == max_age_secs && age_subsec_nanos >= max_age_subsec_nanos)
}

} // verus!
