//! Additional types related to [`UserManaged`](super::UserManaged).

use vstd::prelude::*;

verus! {

/// A replica of a secret payload in one location.
#[derive(Clone, Debug, PartialEq)]
#[non_exhaustive]
pub struct Replica {
    /// The canonical id of the location to replicate data to, for example `"us-east1"`.
    pub location: String,
    /// Optional. The customer-managed encryption configuration of the replica.
    pub customer_managed_encryption: Option<crate::model::CustomerManagedEncryption>,
}

/// The mathematical value of a [`Replica`].
pub struct ReplicaView {
    /// The value of `location`.
    pub location: Seq<char>,
    /// The value of `customer_managed_encryption`.
    pub customer_managed_encryption: Option<crate::model::CustomerManagedEncryptionView>,
}

impl View for Replica {
    type V = ReplicaView;

    open spec fn view(&self) -> ReplicaView {
        ReplicaView {
            location: self.location@,
            customer_managed_encryption: match self.customer_managed_encryption { Some(v) => Some(v@), None => None },
        }
    }
}

impl ReplicaView {
    /// The value every field of a [`Replica`] starts from.
    pub open spec fn default_v() -> Self {
        ReplicaView {
            location: Seq::empty(),
            customer_managed_encryption: None,
        }
    }
}

impl Default for Replica {
    fn default() -> (r: Self)
        ensures
            r@ == ReplicaView::default_v(),
    {
        let r = Replica {
            location: String::new(),
            customer_managed_encryption: None,
        };
        proof {
        }
        r
    }
}

impl Replica {
    /// Sets the value of `location`.
    pub fn set_location(self, v: String) -> (r: Self)
        ensures
            r == (Replica { location: v, ..self }),
        {
            Replica { location: v, ..self }
    }

    /// Sets the value of `customer_managed_encryption`.
    pub fn set_customer_managed_encryption(self, v: Option<crate::model::CustomerManagedEncryption>) -> (r: Self)
        ensures
            r == (Replica { customer_managed_encryption: v, ..self }),
        {
            Replica { customer_managed_encryption: v, ..self }
    }
}
} // verus!
