//! Additional types related to [`UserManagedStatus`](super::UserManagedStatus).

use vstd::prelude::*;

verus! {

/// The status of a user-managed replica of a secret version.
#[derive(Clone, Debug, PartialEq)]
#[non_exhaustive]
pub struct ReplicaStatus {
    /// Output only. The canonical id of the replica location, for example `"us-east1"`.
    pub location: String,
    /// Output only. The customer-managed encryption status, when in use.
    pub customer_managed_encryption: Option<crate::model::CustomerManagedEncryptionStatus>,
}

/// The mathematical value of a [`ReplicaStatus`].
pub struct ReplicaStatusView {
    /// The value of `location`.
    pub location: Seq<char>,
    /// The value of `customer_managed_encryption`.
    pub customer_managed_encryption: Option<crate::model::CustomerManagedEncryptionStatusView>,
}

impl View for ReplicaStatus {
    type V = ReplicaStatusView;

    open spec fn view(&self) -> ReplicaStatusView {
        ReplicaStatusView {
            location: self.location@,
            customer_managed_encryption: match self.customer_managed_encryption { Some(v) => Some(v@), None => None },
        }
    }
}

impl ReplicaStatusView {
    /// The value every field of a [`ReplicaStatus`] starts from.
    pub open spec fn default_v() -> Self {
        ReplicaStatusView {
            location: Seq::empty(),
            customer_managed_encryption: None,
        }
    }
}

impl Default for ReplicaStatus {
    fn default() -> (r: Self)
        ensures
            r@ == ReplicaStatusView::default_v(),
    {
        let r = ReplicaStatus {
            location: String::new(),
            customer_managed_encryption: None,
        };
        proof {
        }
        r
    }
}

impl ReplicaStatus {
    /// Sets the value of `location`.
    pub fn set_location(self, v: String) -> (r: Self)
        ensures
            r == (ReplicaStatus { location: v, ..self }),
        {
            ReplicaStatus { location: v, ..self }
    }

    /// Sets the value of `customer_managed_encryption`.
    pub fn set_customer_managed_encryption(self, v: Option<crate::model::CustomerManagedEncryptionStatus>) -> (r: Self)
        ensures
            r == (ReplicaStatus { customer_managed_encryption: v, ..self }),
        {
            ReplicaStatus { customer_managed_encryption: v, ..self }
    }
}
} // verus!
