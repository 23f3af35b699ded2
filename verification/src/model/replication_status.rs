//! Additional types related to
//! [`ReplicationStatus`](crate::model::ReplicationStatus).

use vstd::prelude::*;

pub mod user_managed_status;

verus! {

/// The replication status of a secret version using automatic replication.
#[derive(Clone, Debug, PartialEq)]
#[non_exhaustive]
pub struct AutomaticStatus {
    /// Output only. The customer-managed encryption status, when in use.
    pub customer_managed_encryption: Option<crate::model::CustomerManagedEncryptionStatus>,
}

/// The mathematical value of a [`AutomaticStatus`].
pub struct AutomaticStatusView {
    /// The value of `customer_managed_encryption`.
    pub customer_managed_encryption: Option<crate::model::CustomerManagedEncryptionStatusView>,
}

impl View for AutomaticStatus {
    type V = AutomaticStatusView;

    open spec fn view(&self) -> AutomaticStatusView {
        AutomaticStatusView {
            customer_managed_encryption: match self.customer_managed_encryption { Some(v) => Some(v@), None => None },
        }
    }
}

impl AutomaticStatusView {
    /// The value every field of a [`AutomaticStatus`] starts from.
    pub open spec fn default_v() -> Self {
        AutomaticStatusView {
            customer_managed_encryption: None,
        }
    }
}

impl Default for AutomaticStatus {
    fn default() -> (r: Self)
        ensures
            r@ == AutomaticStatusView::default_v(),
    {
        let r = AutomaticStatus {
            customer_managed_encryption: None,
        };
        proof {
        }
        r
    }
}

impl AutomaticStatus {
    /// Sets the value of `customer_managed_encryption`.
    pub fn set_customer_managed_encryption(self, v: Option<crate::model::CustomerManagedEncryptionStatus>) -> (r: Self)
        ensures
            r == (AutomaticStatus { customer_managed_encryption: v, ..self }),
        {
            AutomaticStatus { customer_managed_encryption: v, ..self }
    }
}
/// The replication status of a secret version using user-managed replication.
#[derive(Clone, Debug, PartialEq)]
#[non_exhaustive]
pub struct UserManagedStatus {
    /// Output only. The list of replica statuses for the secret version.
    pub replicas: Vec<crate::model::replication_status::user_managed_status::ReplicaStatus>,
}

/// The mathematical value of a [`UserManagedStatus`].
pub struct UserManagedStatusView {
    /// The value of `replicas`.
    pub replicas: Seq<crate::model::replication_status::user_managed_status::ReplicaStatusView>,
}

impl View for UserManagedStatus {
    type V = UserManagedStatusView;

    open spec fn view(&self) -> UserManagedStatusView {
        UserManagedStatusView {
            replicas: Seq::new(self.replicas@.len(), |i: int| self.replicas@[i]@),
        }
    }
}

impl UserManagedStatusView {
    /// The value every field of a [`UserManagedStatus`] starts from.
    pub open spec fn default_v() -> Self {
        UserManagedStatusView {
            replicas: Seq::empty(),
        }
    }
}

impl Default for UserManagedStatus {
    fn default() -> (r: Self)
        ensures
            r@ == UserManagedStatusView::default_v(),
    {
        let r = UserManagedStatus {
            replicas: Vec::new(),
        };
        proof {
            assert(r@.replicas =~= Seq::empty());
        }
        r
    }
}

impl UserManagedStatus {
    /// Sets the value of `replicas`.
    pub fn set_replicas(self, v: Vec<crate::model::replication_status::user_managed_status::ReplicaStatus>) -> (r: Self)
        ensures
            r == (UserManagedStatus { replicas: v, ..self }),
        {
            UserManagedStatus { replicas: v, ..self }
    }
}
/// The replication status of a secret version: automatic or user-managed,
/// mirroring the secret's replication policy.
///
/// On the wire this union is represented exactly as the active
/// alternative's own object, with no wrapper and no type tag; a decoder
/// recognizes the alternative from the keys of the object alone, trying the
/// alternatives in declaration order.
#[derive(Clone, Debug, PartialEq)]
#[non_exhaustive]
pub enum ReplicationStatus {
    /// The status of an automatically replicated secret version. Tried
    /// first when decoding.
    Automatic(crate::model::replication_status::AutomaticStatus),
    /// The status of a secret version replicated into listed locations.
    UserManaged(crate::model::replication_status::UserManagedStatus),
}

/// The mathematical value of a [`ReplicationStatus`] union.
pub enum ReplicationStatusView {
    /// The value of an automatic replication status.
    Automatic(AutomaticStatusView),
    /// The value of a user-managed replication status.
    UserManaged(UserManagedStatusView),
}

impl View for ReplicationStatus {
    type V = ReplicationStatusView;

    open spec fn view(&self) -> ReplicationStatusView {
        match self {
            ReplicationStatus::Automatic(a) => ReplicationStatusView::Automatic(a@),
            ReplicationStatus::UserManaged(u) => ReplicationStatusView::UserManaged(u@),
        }
    }
}

} // verus!
