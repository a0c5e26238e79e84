//! The wall clock, read through chrono.

use vstd::prelude::*;
use crate::record::Stamp;

verus! {

/// Relies on chrono's `Local::now`: the present instant, carried over as whole
/// seconds since the Unix epoch (`DateTime::timestamp`) and as local civil
/// time written by `DateTime::format("%Y-%m-%d %H:%M:%S")`. The values depend
/// on the time and the machine; `Utc::now`, which `Local::now` reads, only
/// returns for instants at or after the epoch, so the seconds are never negative.
#[verifier::external_body]
pub(crate) fn local_now() -> (r: Stamp)
    ensures
        r.secs >= 0,
{
    let now = chrono::Local::now();
    Stamp { secs: now.timestamp(), text: now.format("%Y-%m-%d %H:%M:%S").to_string() }
}

} // verus!
