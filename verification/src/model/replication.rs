//! Additional types related to [`Replication`](crate::model::Replication).

use vstd::prelude::*;

pub mod user_managed;

verus! {

/// A replication policy that replicates the secret payload without any restrictions.
#[derive(Clone, Debug, PartialEq)]
#[non_exhaustive]
pub struct Automatic {
    /// Optional. The customer-managed encryption configuration.
    pub customer_managed_encryption: Option<crate::model::CustomerManagedEncryption>,
}

/// The mathematical value of a [`Automatic`].
pub struct AutomaticView {
    /// The value of `customer_managed_encryption`.
    pub customer_managed_encryption: Option<crate::model::CustomerManagedEncryptionView>,
}

impl View for Automatic {
    type V = AutomaticView;

    open spec fn view(&self) -> AutomaticView {
        AutomaticView {
            customer_managed_encryption: match self.customer_managed_encryption { Some(v) => Some(v@), None => None },
        }
    }
}

impl AutomaticView {
    /// The value every field of a [`Automatic`] starts from.
    pub open spec fn default_v() -> Self {
        AutomaticView {
            customer_managed_encryption: None,
        }
    }
}

impl Default for Automatic {
    fn default() -> (r: Self)
        ensures
            r@ == AutomaticView::default_v(),
    {
        let r = Automatic {
            customer_managed_encryption: None,
        };
        proof {
        }
        r
    }
}

impl Automatic {
    /// Sets the value of `customer_managed_encryption`.
    pub fn set_customer_managed_encryption(self, v: Option<crate::model::CustomerManagedEncryption>) -> (r: Self)
        ensures
            r == (Automatic { customer_managed_encryption: v, ..self }),
        {
            Automatic { customer_managed_encryption: v, ..self }
    }
}
/// A replication policy that replicates the secret payload into the locations specified.
#[derive(Clone, Debug, PartialEq)]
#[non_exhaustive]
pub struct UserManaged {
    /// Required. The list of replicas for this secret; cannot be empty.
    pub replicas: Vec<crate::model::replication::user_managed::Replica>,
}

/// The mathematical value of a [`UserManaged`].
pub struct UserManagedView {
    /// The value of `replicas`.
    pub replicas: Seq<crate::model::replication::user_managed::ReplicaView>,
}

impl View for UserManaged {
    type V = UserManagedView;

    open spec fn view(&self) -> UserManagedView {
        UserManagedView {
            replicas: Seq::new(self.replicas@.len(), |i: int| self.replicas@[i]@),
        }
    }
}

impl UserManagedView {
    /// The value every field of a [`UserManaged`] starts from.
    pub open spec fn default_v() -> Self {
        UserManagedView {
            replicas: Seq::empty(),
        }
    }
}

impl Default for UserManaged {
    fn default() -> (r: Self)
        ensures
            r@ == UserManagedView::default_v(),
    {
        let r = UserManaged {
            replicas: Vec::new(),
        };
        proof {
            assert(r@.replicas =~= Seq::empty());
        }
        r
    }
}

impl UserManaged {
    /// Sets the value of `replicas`.
    pub fn set_replicas(self, v: Vec<crate::model::replication::user_managed::Replica>) -> (r: Self)
        ensures
            r == (UserManaged { replicas: v, ..self }),
        {
            UserManaged { replicas: v, ..self }
    }
}
/// The replication policy for a secret: automatic, or into the listed
/// locations.
///
/// On the wire this union is represented exactly as the active
/// alternative's own object, with no wrapper and no type tag; a decoder
/// recognizes the alternative from the keys of the object alone, trying the
/// alternatives in declaration order.
#[derive(Clone, Debug, PartialEq)]
#[non_exhaustive]
pub enum Replication {
    /// The secret is automatically replicated without restrictions. Tried
    /// first when decoding.
    Automatic(crate::model::replication::Automatic),
    /// The secret is replicated only into the locations specified.
    UserManaged(crate::model::replication::UserManaged),
}

/// The mathematical value of a [`Replication`] union.
pub enum ReplicationView {
    /// The value of an automatic policy.
    Automatic(AutomaticView),
    /// The value of a user-managed policy.
    UserManaged(UserManagedView),
}

impl View for Replication {
    type V = ReplicationView;

    open spec fn view(&self) -> ReplicationView {
        match self {
            Replication::Automatic(a) => ReplicationView::Automatic(a@),
            Replication::UserManaged(u) => ReplicationView::UserManaged(u@),
        }
    }
}

} // verus!
