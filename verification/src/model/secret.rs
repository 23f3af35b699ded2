//! Additional types related to [`Secret`](crate::model::Secret).

use crate::wellknown::{Duration, Timestamp};
use vstd::prelude::*;

verus! {

/// Expiration policy attached to a secret: either a point in time at which
/// it expires, or a time to live.
///
/// On the wire this union is represented exactly as the active
/// alternative's own value, with no wrapper object and no type tag; a
/// decoder recognizes the alternative from the shape of the value alone.
#[derive(Clone, Copy, Debug, PartialEq, Eq, Structural)]
#[non_exhaustive]
pub enum Expiration {
    /// Optional. The timestamp in UTC when the secret is scheduled to
    /// expire. Tried first when decoding.
    ExpireTime(Timestamp),
    /// Input only. The TTL for the secret.
    Ttl(Duration),
}

impl View for Expiration {
    type V = Expiration;

    open spec fn view(&self) -> Expiration {
        *self
    }
}

impl Expiration {
    /// Whether the carried value is in range.
    pub open spec fn wf(self) -> bool {
        match self {
            Expiration::ExpireTime(t) => t.wf(),
            Expiration::Ttl(d) => d.wf(),
        }
    }
}

} // verus!
