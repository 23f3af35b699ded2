//! Useful constants to work with [`State`](super::State).

use vstd::prelude::*;

verus! {

/// Not specified. This value is unused and invalid.
pub const STATE_UNSPECIFIED: &'static str = "STATE_UNSPECIFIED";

/// The secret version may be accessed.
pub const ENABLED: &'static str = "ENABLED";

/// The secret version may not be accessed, but the secret data is still
/// available and the version can be enabled again.
pub const DISABLED: &'static str = "DISABLED";

/// The secret version is destroyed and the secret data is no longer stored.
pub const DESTROYED: &'static str = "DESTROYED";

} // verus!
