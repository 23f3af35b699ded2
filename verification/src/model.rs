//! The resource model: the typed entities the client manipulates and the
//! codec serializes. Each type has a mathematical view (`*View`) over which
//! the codec contracts are stated, builder-style setters, and a default
//! value, which is also what a decoder starts from.

use crate::wellknown::{Duration, FieldMask, Timestamp};
use vstd::prelude::*;

pub mod replication;
pub mod replication_status;
pub mod secret;
pub mod secret_version;

use secret_version::State;

verus! {

/// A logical secret whose value and versions can be accessed.
#[derive(Clone, Debug, PartialEq)]
#[non_exhaustive]
pub struct Secret {
    /// Output only. The resource name, in the format `projects/*/secrets/*`.
    pub name: String,
    /// Optional. Immutable. The replication policy of the secret data.
    pub replication: Option<crate::model::Replication>,
    /// Output only. The time at which the secret was created.
    pub create_time: Option<Timestamp>,
    /// The labels assigned to this secret, with unique keys.
    pub labels: Vec<(String, String)>,
    /// Optional. Topics notified when control plane operations occur.
    pub topics: Vec<crate::model::Topic>,
    /// Optional. Etag of the currently stored secret.
    pub etag: String,
    /// Optional. Rotation policy attached to the secret.
    pub rotation: Option<crate::model::Rotation>,
    /// Optional. Mapping from version alias to version number.
    pub version_aliases: Vec<(String, i64)>,
    /// Optional. Custom metadata about the secret, with unique keys.
    pub annotations: Vec<(String, String)>,
    /// Optional. Version TTL after a destruction request.
    pub version_destroy_ttl: Option<Duration>,
    /// Optional. The customer-managed encryption configuration.
    pub customer_managed_encryption: Option<crate::model::CustomerManagedEncryption>,
    /// Expiration policy attached to the secret.
    pub expiration: Option<crate::model::secret::Expiration>,
}

/// The mathematical value of a [`Secret`].
pub struct SecretView {
    /// The value of `name`.
    pub name: Seq<char>,
    /// The value of `replication`.
    pub replication: Option<crate::model::ReplicationView>,
    /// The value of `create_time`.
    pub create_time: Option<Timestamp>,
    /// The value of `labels`.
    pub labels: Seq<(Seq<char>, Seq<char>)>,
    /// The value of `topics`.
    pub topics: Seq<crate::model::TopicView>,
    /// The value of `etag`.
    pub etag: Seq<char>,
    /// The value of `rotation`.
    pub rotation: Option<crate::model::RotationView>,
    /// The value of `version_aliases`.
    pub version_aliases: Seq<(Seq<char>, i64)>,
    /// The value of `annotations`.
    pub annotations: Seq<(Seq<char>, Seq<char>)>,
    /// The value of `version_destroy_ttl`.
    pub version_destroy_ttl: Option<Duration>,
    /// The value of `customer_managed_encryption`.
    pub customer_managed_encryption: Option<crate::model::CustomerManagedEncryptionView>,
    /// The value of `expiration`.
    pub expiration: Option<crate::model::secret::Expiration>,
}

impl View for Secret {
    type V = SecretView;

    open spec fn view(&self) -> SecretView {
        SecretView {
            name: self.name@,
            replication: match self.replication { Some(v) => Some(v@), None => None },
            create_time: self.create_time,
            labels: Seq::new(self.labels@.len(), |i: int| (self.labels@[i].0@, self.labels@[i].1@)),
            topics: Seq::new(self.topics@.len(), |i: int| self.topics@[i]@),
            etag: self.etag@,
            rotation: match self.rotation { Some(v) => Some(v@), None => None },
            version_aliases: Seq::new(self.version_aliases@.len(), |i: int| (self.version_aliases@[i].0@, self.version_aliases@[i].1)),
            annotations: Seq::new(self.annotations@.len(), |i: int| (self.annotations@[i].0@, self.annotations@[i].1@)),
            version_destroy_ttl: self.version_destroy_ttl,
            customer_managed_encryption: match self.customer_managed_encryption { Some(v) => Some(v@), None => None },
            expiration: match self.expiration { Some(v) => Some(v@), None => None },
        }
    }
}

impl SecretView {
    /// The value every field of a [`Secret`] starts from.
    pub open spec fn default_v() -> Self {
        SecretView {
            name: Seq::empty(),
            replication: None,
            create_time: None,
            labels: Seq::empty(),
            topics: Seq::empty(),
            etag: Seq::empty(),
            rotation: None,
            version_aliases: Seq::empty(),
            annotations: Seq::empty(),
            version_destroy_ttl: None,
            customer_managed_encryption: None,
            expiration: None,
        }
    }
}

impl Default for Secret {
    fn default() -> (r: Self)
        ensures
            r@ == SecretView::default_v(),
    {
        let r = Secret {
            name: String::new(),
            replication: None,
            create_time: None,
            labels: Vec::new(),
            topics: Vec::new(),
            etag: String::new(),
            rotation: None,
            version_aliases: Vec::new(),
            annotations: Vec::new(),
            version_destroy_ttl: None,
            customer_managed_encryption: None,
            expiration: None,
        };
        proof {
            assert(r@.labels =~= Seq::empty());
            assert(r@.topics =~= Seq::empty());
            assert(r@.version_aliases =~= Seq::empty());
            assert(r@.annotations =~= Seq::empty());
        }
        r
    }
}

impl Secret {
    /// Sets the value of `name`.
    pub fn set_name(self, v: String) -> (r: Self)
        ensures
            r == (Secret { name: v, ..self }),
        {
            Secret { name: v, ..self }
    }

    /// Sets the value of `replication`.
    pub fn set_replication(self, v: Option<crate::model::Replication>) -> (r: Self)
        ensures
            r == (Secret { replication: v, ..self }),
        {
            Secret { replication: v, ..self }
    }

    /// Sets the value of `create_time`.
    pub fn set_create_time(self, v: Option<Timestamp>) -> (r: Self)
        ensures
            r == (Secret { create_time: v, ..self }),
        {
            Secret { create_time: v, ..self }
    }

    /// Sets the value of `labels`.
    pub fn set_labels(self, v: Vec<(String, String)>) -> (r: Self)
        ensures
            r == (Secret { labels: v, ..self }),
        {
            Secret { labels: v, ..self }
    }

    /// Sets the value of `topics`.
    pub fn set_topics(self, v: Vec<crate::model::Topic>) -> (r: Self)
        ensures
            r == (Secret { topics: v, ..self }),
        {
            Secret { topics: v, ..self }
    }

    /// Sets the value of `etag`.
    pub fn set_etag(self, v: String) -> (r: Self)
        ensures
            r == (Secret { etag: v, ..self }),
        {
            Secret { etag: v, ..self }
    }

    /// Sets the value of `rotation`.
    pub fn set_rotation(self, v: Option<crate::model::Rotation>) -> (r: Self)
        ensures
            r == (Secret { rotation: v, ..self }),
        {
            Secret { rotation: v, ..self }
    }

    /// Sets the value of `version_aliases`.
    pub fn set_version_aliases(self, v: Vec<(String, i64)>) -> (r: Self)
        ensures
            r == (Secret { version_aliases: v, ..self }),
        {
            Secret { version_aliases: v, ..self }
    }

    /// Sets the value of `annotations`.
    pub fn set_annotations(self, v: Vec<(String, String)>) -> (r: Self)
        ensures
            r == (Secret { annotations: v, ..self }),
        {
            Secret { annotations: v, ..self }
    }

    /// Sets the value of `version_destroy_ttl`.
    pub fn set_version_destroy_ttl(self, v: Option<Duration>) -> (r: Self)
        ensures
            r == (Secret { version_destroy_ttl: v, ..self }),
        {
            Secret { version_destroy_ttl: v, ..self }
    }

    /// Sets the value of `customer_managed_encryption`.
    pub fn set_customer_managed_encryption(self, v: Option<crate::model::CustomerManagedEncryption>) -> (r: Self)
        ensures
            r == (Secret { customer_managed_encryption: v, ..self }),
        {
            Secret { customer_managed_encryption: v, ..self }
    }

    /// Sets the value of `expiration`.
    pub fn set_expiration(self, v: Option<crate::model::secret::Expiration>) -> (r: Self)
        ensures
            r == (Secret { expiration: v, ..self }),
        {
            Secret { expiration: v, ..self }
    }
}

/// A secret version resource.
#[derive(Clone, Debug, PartialEq)]
#[non_exhaustive]
pub struct SecretVersion {
    /// Output only. The resource name, in the format `projects/*/secrets/*/versions/*`.
    pub name: String,
    /// Output only. The time at which the version was created.
    pub create_time: Option<Timestamp>,
    /// Output only. The time the version was destroyed, when it was.
    pub destroy_time: Option<Timestamp>,
    /// Output only. The current state of the version.
    pub state: State,
    /// The replication status of the version.
    pub replication_status: Option<crate::model::ReplicationStatus>,
    /// Output only. Etag of the currently stored version.
    pub etag: String,
    /// Output only. Whether a payload checksum was supplied when the version was added.
    pub client_specified_payload_checksum: bool,
    /// Optional. Output only. Scheduled destroy time for the version.
    pub scheduled_destroy_time: Option<Timestamp>,
    /// Output only. The customer-managed encryption status of the version.
    pub customer_managed_encryption: Option<crate::model::CustomerManagedEncryptionStatus>,
}

/// The mathematical value of a [`SecretVersion`].
pub struct SecretVersionView {
    /// The value of `name`.
    pub name: Seq<char>,
    /// The value of `create_time`.
    pub create_time: Option<Timestamp>,
    /// The value of `destroy_time`.
    pub destroy_time: Option<Timestamp>,
    /// The value of `state`.
    pub state: Seq<char>,
    /// The value of `replication_status`.
    pub replication_status: Option<crate::model::ReplicationStatusView>,
    /// The value of `etag`.
    pub etag: Seq<char>,
    /// The value of `client_specified_payload_checksum`.
    pub client_specified_payload_checksum: bool,
    /// The value of `scheduled_destroy_time`.
    pub scheduled_destroy_time: Option<Timestamp>,
    /// The value of `customer_managed_encryption`.
    pub customer_managed_encryption: Option<crate::model::CustomerManagedEncryptionStatusView>,
}

impl View for SecretVersion {
    type V = SecretVersionView;

    open spec fn view(&self) -> SecretVersionView {
        SecretVersionView {
            name: self.name@,
            create_time: self.create_time,
            destroy_time: self.destroy_time,
            state: self.state@,
            replication_status: match self.replication_status { Some(v) => Some(v@), None => None },
            etag: self.etag@,
            client_specified_payload_checksum: self.client_specified_payload_checksum,
            scheduled_destroy_time: self.scheduled_destroy_time,
            customer_managed_encryption: match self.customer_managed_encryption { Some(v) => Some(v@), None => None },
        }
    }
}

impl SecretVersionView {
    /// The value every field of a [`SecretVersion`] starts from.
    pub open spec fn default_v() -> Self {
        SecretVersionView {
            name: Seq::empty(),
            create_time: None,
            destroy_time: None,
            state: Seq::empty(),
            replication_status: None,
            etag: Seq::empty(),
            client_specified_payload_checksum: false,
            scheduled_destroy_time: None,
            customer_managed_encryption: None,
        }
    }
}

impl Default for SecretVersion {
    fn default() -> (r: Self)
        ensures
            r@ == SecretVersionView::default_v(),
    {
        let r = SecretVersion {
            name: String::new(),
            create_time: None,
            destroy_time: None,
            state: State(String::new()),
            replication_status: None,
            etag: String::new(),
            client_specified_payload_checksum: false,
            scheduled_destroy_time: None,
            customer_managed_encryption: None,
        };
        proof {
        }
        r
    }
}

impl SecretVersion {
    /// Sets the value of `name`.
    pub fn set_name(self, v: String) -> (r: Self)
        ensures
            r == (SecretVersion { name: v, ..self }),
        {
            SecretVersion { name: v, ..self }
    }

    /// Sets the value of `create_time`.
    pub fn set_create_time(self, v: Option<Timestamp>) -> (r: Self)
        ensures
            r == (SecretVersion { create_time: v, ..self }),
        {
            SecretVersion { create_time: v, ..self }
    }

    /// Sets the value of `destroy_time`.
    pub fn set_destroy_time(self, v: Option<Timestamp>) -> (r: Self)
        ensures
            r == (SecretVersion { destroy_time: v, ..self }),
        {
            SecretVersion { destroy_time: v, ..self }
    }

    /// Sets the value of `state`.
    pub fn set_state(self, v: State) -> (r: Self)
        ensures
            r == (SecretVersion { state: v, ..self }),
        {
            SecretVersion { state: v, ..self }
    }

    /// Sets the value of `replication_status`.
    pub fn set_replication_status(self, v: Option<crate::model::ReplicationStatus>) -> (r: Self)
        ensures
            r == (SecretVersion { replication_status: v, ..self }),
        {
            SecretVersion { replication_status: v, ..self }
    }

    /// Sets the value of `etag`.
    pub fn set_etag(self, v: String) -> (r: Self)
        ensures
            r == (SecretVersion { etag: v, ..self }),
        {
            SecretVersion { etag: v, ..self }
    }

    /// Sets the value of `client_specified_payload_checksum`.
    pub fn set_client_specified_payload_checksum(self, v: bool) -> (r: Self)
        ensures
            r == (SecretVersion { client_specified_payload_checksum: v, ..self }),
        {
            SecretVersion { client_specified_payload_checksum: v, ..self }
    }

    /// Sets the value of `scheduled_destroy_time`.
    pub fn set_scheduled_destroy_time(self, v: Option<Timestamp>) -> (r: Self)
        ensures
            r == (SecretVersion { scheduled_destroy_time: v, ..self }),
        {
            SecretVersion { scheduled_destroy_time: v, ..self }
    }

    /// Sets the value of `customer_managed_encryption`.
    pub fn set_customer_managed_encryption(self, v: Option<crate::model::CustomerManagedEncryptionStatus>) -> (r: Self)
        ensures
            r == (SecretVersion { customer_managed_encryption: v, ..self }),
        {
            SecretVersion { customer_managed_encryption: v, ..self }
    }
}

/// A policy that defines the replication and encryption configuration of data.
#[derive(Clone, Debug, PartialEq)]
#[non_exhaustive]
pub struct Replication {
    /// The replication policy for this secret.
    pub replication: Option<crate::model::replication::Replication>,
}

/// The mathematical value of a [`Replication`].
pub struct ReplicationView {
    /// The value of `replication`.
    pub replication: Option<crate::model::replication::ReplicationView>,
}

impl View for Replication {
    type V = ReplicationView;

    open spec fn view(&self) -> ReplicationView {
        ReplicationView {
            replication: match self.replication { Some(v) => Some(v@), None => None },
        }
    }
}

impl ReplicationView {
    /// The value every field of a [`Replication`] starts from.
    pub open spec fn default_v() -> Self {
        ReplicationView {
            replication: None,
        }
    }
}

impl Default for Replication {
    fn default() -> (r: Self)
        ensures
            r@ == ReplicationView::default_v(),
    {
        let r = Replication {
            replication: None,
        };
        proof {
        }
        r
    }
}

impl Replication {
    /// Sets the value of `replication`.
    pub fn set_replication(self, v: Option<crate::model::replication::Replication>) -> (r: Self)
        ensures
            r == (Replication { replication: v, ..self }),
        {
            Replication { replication: v, ..self }
    }
}

/// Configuration for encrypting secret payloads using customer-managed encryption keys.
#[derive(Clone, Debug, PartialEq)]
#[non_exhaustive]
pub struct CustomerManagedEncryption {
    /// Required. The resource name of the Cloud KMS key used to encrypt payloads.
    pub kms_key_name: String,
}

/// The mathematical value of a [`CustomerManagedEncryption`].
pub struct CustomerManagedEncryptionView {
    /// The value of `kms_key_name`.
    pub kms_key_name: Seq<char>,
}

impl View for CustomerManagedEncryption {
    type V = CustomerManagedEncryptionView;

    open spec fn view(&self) -> CustomerManagedEncryptionView {
        CustomerManagedEncryptionView {
            kms_key_name: self.kms_key_name@,
        }
    }
}

impl CustomerManagedEncryptionView {
    /// The value every field of a [`CustomerManagedEncryption`] starts from.
    pub open spec fn default_v() -> Self {
        CustomerManagedEncryptionView {
            kms_key_name: Seq::empty(),
        }
    }
}

impl Default for CustomerManagedEncryption {
    fn default() -> (r: Self)
        ensures
            r@ == CustomerManagedEncryptionView::default_v(),
    {
        let r = CustomerManagedEncryption {
            kms_key_name: String::new(),
        };
        proof {
        }
        r
    }
}

impl CustomerManagedEncryption {
    /// Sets the value of `kms_key_name`.
    pub fn set_kms_key_name(self, v: String) -> (r: Self)
        ensures
            r == (CustomerManagedEncryption { kms_key_name: v, ..self }),
        {
            CustomerManagedEncryption { kms_key_name: v, ..self }
    }
}

/// The replication status of a secret version.
#[derive(Clone, Debug, PartialEq)]
#[non_exhaustive]
pub struct ReplicationStatus {
    /// The replication status of the secret version.
    pub replication_status: Option<crate::model::replication_status::ReplicationStatus>,
}

/// The mathematical value of a [`ReplicationStatus`].
pub struct ReplicationStatusView {
    /// The value of `replication_status`.
    pub replication_status: Option<crate::model::replication_status::ReplicationStatusView>,
}

impl View for ReplicationStatus {
    type V = ReplicationStatusView;

    open spec fn view(&self) -> ReplicationStatusView {
        ReplicationStatusView {
            replication_status: match self.replication_status { Some(v) => Some(v@), None => None },
        }
    }
}

impl ReplicationStatusView {
    /// The value every field of a [`ReplicationStatus`] starts from.
    pub open spec fn default_v() -> Self {
        ReplicationStatusView {
            replication_status: None,
        }
    }
}

impl Default for ReplicationStatus {
    fn default() -> (r: Self)
        ensures
            r@ == ReplicationStatusView::default_v(),
    {
        let r = ReplicationStatus {
            replication_status: None,
        };
        proof {
        }
        r
    }
}

impl ReplicationStatus {
    /// Sets the value of `replication_status`.
    pub fn set_replication_status(self, v: Option<crate::model::replication_status::ReplicationStatus>) -> (r: Self)
        ensures
            r == (ReplicationStatus { replication_status: v, ..self }),
        {
            ReplicationStatus { replication_status: v, ..self }
    }
}

/// Describes the status of customer-managed encryption.
#[derive(Clone, Debug, PartialEq)]
#[non_exhaustive]
pub struct CustomerManagedEncryptionStatus {
    /// Required. The resource name of the Cloud KMS key version used to encrypt the payload.
    pub kms_key_version_name: String,
}

/// The mathematical value of a [`CustomerManagedEncryptionStatus`].
pub struct CustomerManagedEncryptionStatusView {
    /// The value of `kms_key_version_name`.
    pub kms_key_version_name: Seq<char>,
}

impl View for CustomerManagedEncryptionStatus {
    type V = CustomerManagedEncryptionStatusView;

    open spec fn view(&self) -> CustomerManagedEncryptionStatusView {
        CustomerManagedEncryptionStatusView {
            kms_key_version_name: self.kms_key_version_name@,
        }
    }
}

impl CustomerManagedEncryptionStatusView {
    /// The value every field of a [`CustomerManagedEncryptionStatus`] starts from.
    pub open spec fn default_v() -> Self {
        CustomerManagedEncryptionStatusView {
            kms_key_version_name: Seq::empty(),
        }
    }
}

impl Default for CustomerManagedEncryptionStatus {
    fn default() -> (r: Self)
        ensures
            r@ == CustomerManagedEncryptionStatusView::default_v(),
    {
        let r = CustomerManagedEncryptionStatus {
            kms_key_version_name: String::new(),
        };
        proof {
        }
        r
    }
}

impl CustomerManagedEncryptionStatus {
    /// Sets the value of `kms_key_version_name`.
    pub fn set_kms_key_version_name(self, v: String) -> (r: Self)
        ensures
            r == (CustomerManagedEncryptionStatus { kms_key_version_name: v, ..self }),
        {
            CustomerManagedEncryptionStatus { kms_key_version_name: v, ..self }
    }
}

/// A topic which the service publishes to when control plane events occur on a secret.
#[derive(Clone, Debug, PartialEq)]
#[non_exhaustive]
pub struct Topic {
    /// Required. The resource name of the topic to publish to, in the format `projects/*/topics/*`.
    pub name: String,
}

/// The mathematical value of a [`Topic`].
pub struct TopicView {
    /// The value of `name`.
    pub name: Seq<char>,
}

impl View for Topic {
    type V = TopicView;

    open spec fn view(&self) -> TopicView {
        TopicView {
            name: self.name@,
        }
    }
}

impl TopicView {
    /// The value every field of a [`Topic`] starts from.
    pub open spec fn default_v() -> Self {
        TopicView {
            name: Seq::empty(),
        }
    }
}

impl Default for Topic {
    fn default() -> (r: Self)
        ensures
            r@ == TopicView::default_v(),
    {
        let r = Topic {
            name: String::new(),
        };
        proof {
        }
        r
    }
}

impl Topic {
    /// Sets the value of `name`.
    pub fn set_name(self, v: String) -> (r: Self)
        ensures
            r == (Topic { name: v, ..self }),
        {
            Topic { name: v, ..self }
    }
}

/// The rotation time and period for a secret.
#[derive(Clone, Debug, PartialEq)]
#[non_exhaustive]
pub struct Rotation {
    /// Optional. Timestamp at which the secret is scheduled to rotate.
    pub next_rotation_time: Option<Timestamp>,
    /// Input only. The period between rotation notifications.
    pub rotation_period: Option<Duration>,
}

/// The mathematical value of a [`Rotation`].
pub struct RotationView {
    /// The value of `next_rotation_time`.
    pub next_rotation_time: Option<Timestamp>,
    /// The value of `rotation_period`.
    pub rotation_period: Option<Duration>,
}

impl View for Rotation {
    type V = RotationView;

    open spec fn view(&self) -> RotationView {
        RotationView {
            next_rotation_time: self.next_rotation_time,
            rotation_period: self.rotation_period,
        }
    }
}

impl RotationView {
    /// The value every field of a [`Rotation`] starts from.
    pub open spec fn default_v() -> Self {
        RotationView {
            next_rotation_time: None,
            rotation_period: None,
        }
    }
}

impl Default for Rotation {
    fn default() -> (r: Self)
        ensures
            r@ == RotationView::default_v(),
    {
        let r = Rotation {
            next_rotation_time: None,
            rotation_period: None,
        };
        proof {
        }
        r
    }
}

impl Rotation {
    /// Sets the value of `next_rotation_time`.
    pub fn set_next_rotation_time(self, v: Option<Timestamp>) -> (r: Self)
        ensures
            r == (Rotation { next_rotation_time: v, ..self }),
        {
            Rotation { next_rotation_time: v, ..self }
    }

    /// Sets the value of `rotation_period`.
    pub fn set_rotation_period(self, v: Option<Duration>) -> (r: Self)
        ensures
            r == (Rotation { rotation_period: v, ..self }),
        {
            Rotation { rotation_period: v, ..self }
    }
}

/// A secret payload: the sensitive data associated with a secret version.
#[derive(Clone, Debug, PartialEq)]
#[non_exhaustive]
pub struct SecretPayload {
    /// The secret data.
    pub data: Vec<u8>,
    /// Optional. A CRC32C checksum of the data, carried as a 64-bit integer for compatibility.
    pub data_crc32c: Option<i64>,
}

/// The mathematical value of a [`SecretPayload`].
pub struct SecretPayloadView {
    /// The value of `data`.
    pub data: Seq<u8>,
    /// The value of `data_crc32c`.
    pub data_crc32c: Option<i64>,
}

impl View for SecretPayload {
    type V = SecretPayloadView;

    open spec fn view(&self) -> SecretPayloadView {
        SecretPayloadView {
            data: self.data@,
            data_crc32c: self.data_crc32c,
        }
    }
}

impl SecretPayloadView {
    /// The value every field of a [`SecretPayload`] starts from.
    pub open spec fn default_v() -> Self {
        SecretPayloadView {
            data: Seq::empty(),
            data_crc32c: None,
        }
    }
}

impl Default for SecretPayload {
    fn default() -> (r: Self)
        ensures
            r@ == SecretPayloadView::default_v(),
    {
        let r = SecretPayload {
            data: Vec::new(),
            data_crc32c: None,
        };
        proof {
            assert(r@.data =~= Seq::<u8>::empty());
        }
        r
    }
}

impl SecretPayload {
    /// Sets the value of `data`.
    pub fn set_data(self, v: Vec<u8>) -> (r: Self)
        ensures
            r == (SecretPayload { data: v, ..self }),
        {
            SecretPayload { data: v, ..self }
    }

    /// Sets the value of `data_crc32c`.
    pub fn set_data_crc32c(self, v: Option<i64>) -> (r: Self)
        ensures
            r == (SecretPayload { data_crc32c: v, ..self }),
        {
            SecretPayload { data_crc32c: v, ..self }
    }
}

/// Request message for listing secrets.
#[derive(Clone, Debug, PartialEq)]
#[non_exhaustive]
pub struct ListSecretsRequest {
    /// Required. The resource name of the project, in the format `projects/*`.
    pub parent: String,
    /// Optional. The maximum number of results returned in a single page.
    pub page_size: i32,
    /// Optional. Pagination token returned by an earlier list response.
    pub page_token: String,
    /// Optional. Filter string; empty lists all secrets.
    pub filter: String,
}

/// The mathematical value of a [`ListSecretsRequest`].
pub struct ListSecretsRequestView {
    /// The value of `parent`.
    pub parent: Seq<char>,
    /// The value of `page_size`.
    pub page_size: i32,
    /// The value of `page_token`.
    pub page_token: Seq<char>,
    /// The value of `filter`.
    pub filter: Seq<char>,
}

impl View for ListSecretsRequest {
    type V = ListSecretsRequestView;

    open spec fn view(&self) -> ListSecretsRequestView {
        ListSecretsRequestView {
            parent: self.parent@,
            page_size: self.page_size,
            page_token: self.page_token@,
            filter: self.filter@,
        }
    }
}

impl ListSecretsRequestView {
    /// The value every field of a [`ListSecretsRequest`] starts from.
    pub open spec fn default_v() -> Self {
        ListSecretsRequestView {
            parent: Seq::empty(),
            page_size: 0,
            page_token: Seq::empty(),
            filter: Seq::empty(),
        }
    }
}

impl Default for ListSecretsRequest {
    fn default() -> (r: Self)
        ensures
            r@ == ListSecretsRequestView::default_v(),
    {
        let r = ListSecretsRequest {
            parent: String::new(),
            page_size: 0,
            page_token: String::new(),
            filter: String::new(),
        };
        proof {
        }
        r
    }
}

impl ListSecretsRequest {
    /// Sets the value of `parent`.
    pub fn set_parent(self, v: String) -> (r: Self)
        ensures
            r == (ListSecretsRequest { parent: v, ..self }),
        {
            ListSecretsRequest { parent: v, ..self }
    }

    /// Sets the value of `page_size`.
    pub fn set_page_size(self, v: i32) -> (r: Self)
        ensures
            r == (ListSecretsRequest { page_size: v, ..self }),
        {
            ListSecretsRequest { page_size: v, ..self }
    }

    /// Sets the value of `page_token`.
    pub fn set_page_token(self, v: String) -> (r: Self)
        ensures
            r == (ListSecretsRequest { page_token: v, ..self }),
        {
            ListSecretsRequest { page_token: v, ..self }
    }

    /// Sets the value of `filter`.
    pub fn set_filter(self, v: String) -> (r: Self)
        ensures
            r == (ListSecretsRequest { filter: v, ..self }),
        {
            ListSecretsRequest { filter: v, ..self }
    }
}

/// Response message for listing secrets.
#[derive(Clone, Debug, PartialEq)]
#[non_exhaustive]
pub struct ListSecretsResponse {
    /// The list of secrets, newest first.
    pub secrets: Vec<crate::model::Secret>,
    /// A token to retrieve the next page of results.
    pub next_page_token: String,
    /// The total number of secrets, or 0 when a filter was set.
    pub total_size: i32,
}

/// The mathematical value of a [`ListSecretsResponse`].
pub struct ListSecretsResponseView {
    /// The value of `secrets`.
    pub secrets: Seq<crate::model::SecretView>,
    /// The value of `next_page_token`.
    pub next_page_token: Seq<char>,
    /// The value of `total_size`.
    pub total_size: i32,
}

impl View for ListSecretsResponse {
    type V = ListSecretsResponseView;

    open spec fn view(&self) -> ListSecretsResponseView {
        ListSecretsResponseView {
            secrets: Seq::new(self.secrets@.len(), |i: int| self.secrets@[i]@),
            next_page_token: self.next_page_token@,
            total_size: self.total_size,
        }
    }
}

impl ListSecretsResponseView {
    /// The value every field of a [`ListSecretsResponse`] starts from.
    pub open spec fn default_v() -> Self {
        ListSecretsResponseView {
            secrets: Seq::empty(),
            next_page_token: Seq::empty(),
            total_size: 0,
        }
    }
}

impl Default for ListSecretsResponse {
    fn default() -> (r: Self)
        ensures
            r@ == ListSecretsResponseView::default_v(),
    {
        let r = ListSecretsResponse {
            secrets: Vec::new(),
            next_page_token: String::new(),
            total_size: 0,
        };
        proof {
            assert(r@.secrets =~= Seq::empty());
        }
        r
    }
}

impl ListSecretsResponse {
    /// Sets the value of `secrets`.
    pub fn set_secrets(self, v: Vec<crate::model::Secret>) -> (r: Self)
        ensures
            r == (ListSecretsResponse { secrets: v, ..self }),
        {
            ListSecretsResponse { secrets: v, ..self }
    }

    /// Sets the value of `next_page_token`.
    pub fn set_next_page_token(self, v: String) -> (r: Self)
        ensures
            r == (ListSecretsResponse { next_page_token: v, ..self }),
        {
            ListSecretsResponse { next_page_token: v, ..self }
    }

    /// Sets the value of `total_size`.
    pub fn set_total_size(self, v: i32) -> (r: Self)
        ensures
            r == (ListSecretsResponse { total_size: v, ..self }),
        {
            ListSecretsResponse { total_size: v, ..self }
    }
}

/// Request message for creating a secret.
#[derive(Clone, Debug, PartialEq)]
#[non_exhaustive]
pub struct CreateSecretRequest {
    /// Required. The resource name of the project, in the format `projects/*`.
    pub parent: String,
    /// Required. The secret id; must be unique within the project.
    pub secret_id: String,
    /// Required. A secret with initial field values.
    pub secret: Option<crate::model::Secret>,
}

/// The mathematical value of a [`CreateSecretRequest`].
pub struct CreateSecretRequestView {
    /// The value of `parent`.
    pub parent: Seq<char>,
    /// The value of `secret_id`.
    pub secret_id: Seq<char>,
    /// The value of `secret`.
    pub secret: Option<crate::model::SecretView>,
}

impl View for CreateSecretRequest {
    type V = CreateSecretRequestView;

    open spec fn view(&self) -> CreateSecretRequestView {
        CreateSecretRequestView {
            parent: self.parent@,
            secret_id: self.secret_id@,
            secret: match self.secret { Some(v) => Some(v@), None => None },
        }
    }
}

impl CreateSecretRequestView {
    /// The value every field of a [`CreateSecretRequest`] starts from.
    pub open spec fn default_v() -> Self {
        CreateSecretRequestView {
            parent: Seq::empty(),
            secret_id: Seq::empty(),
            secret: None,
        }
    }
}

impl Default for CreateSecretRequest {
    fn default() -> (r: Self)
        ensures
            r@ == CreateSecretRequestView::default_v(),
    {
        let r = CreateSecretRequest {
            parent: String::new(),
            secret_id: String::new(),
            secret: None,
        };
        proof {
        }
        r
    }
}

impl CreateSecretRequest {
    /// Sets the value of `parent`.
    pub fn set_parent(self, v: String) -> (r: Self)
        ensures
            r == (CreateSecretRequest { parent: v, ..self }),
        {
            CreateSecretRequest { parent: v, ..self }
    }

    /// Sets the value of `secret_id`.
    pub fn set_secret_id(self, v: String) -> (r: Self)
        ensures
            r == (CreateSecretRequest { secret_id: v, ..self }),
        {
            CreateSecretRequest { secret_id: v, ..self }
    }

    /// Sets the value of `secret`.
    pub fn set_secret(self, v: Option<crate::model::Secret>) -> (r: Self)
        ensures
            r == (CreateSecretRequest { secret: v, ..self }),
        {
            CreateSecretRequest { secret: v, ..self }
    }
}

/// Request message for adding a secret version.
#[derive(Clone, Debug, PartialEq)]
#[non_exhaustive]
pub struct AddSecretVersionRequest {
    /// Required. The resource name of the secret, in the format `projects/*/secrets/*`.
    pub parent: String,
    /// Required. The secret payload of the new version.
    pub payload: Option<crate::model::SecretPayload>,
}

/// The mathematical value of a [`AddSecretVersionRequest`].
pub struct AddSecretVersionRequestView {
    /// The value of `parent`.
    pub parent: Seq<char>,
    /// The value of `payload`.
    pub payload: Option<crate::model::SecretPayloadView>,
}

impl View for AddSecretVersionRequest {
    type V = AddSecretVersionRequestView;

    open spec fn view(&self) -> AddSecretVersionRequestView {
        AddSecretVersionRequestView {
            parent: self.parent@,
            payload: match self.payload { Some(v) => Some(v@), None => None },
        }
    }
}

impl AddSecretVersionRequestView {
    /// The value every field of a [`AddSecretVersionRequest`] starts from.
    pub open spec fn default_v() -> Self {
        AddSecretVersionRequestView {
            parent: Seq::empty(),
            payload: None,
        }
    }
}

impl Default for AddSecretVersionRequest {
    fn default() -> (r: Self)
        ensures
            r@ == AddSecretVersionRequestView::default_v(),
    {
        let r = AddSecretVersionRequest {
            parent: String::new(),
            payload: None,
        };
        proof {
        }
        r
    }
}

impl AddSecretVersionRequest {
    /// Sets the value of `parent`.
    pub fn set_parent(self, v: String) -> (r: Self)
        ensures
            r == (AddSecretVersionRequest { parent: v, ..self }),
        {
            AddSecretVersionRequest { parent: v, ..self }
    }

    /// Sets the value of `payload`.
    pub fn set_payload(self, v: Option<crate::model::SecretPayload>) -> (r: Self)
        ensures
            r == (AddSecretVersionRequest { payload: v, ..self }),
        {
            AddSecretVersionRequest { payload: v, ..self }
    }
}

/// Request message for reading a secret.
#[derive(Clone, Debug, PartialEq)]
#[non_exhaustive]
pub struct GetSecretRequest {
    /// Required. The resource name of the secret, in the format `projects/*/secrets/*`.
    pub name: String,
}

/// The mathematical value of a [`GetSecretRequest`].
pub struct GetSecretRequestView {
    /// The value of `name`.
    pub name: Seq<char>,
}

impl View for GetSecretRequest {
    type V = GetSecretRequestView;

    open spec fn view(&self) -> GetSecretRequestView {
        GetSecretRequestView {
            name: self.name@,
        }
    }
}

impl GetSecretRequestView {
    /// The value every field of a [`GetSecretRequest`] starts from.
    pub open spec fn default_v() -> Self {
        GetSecretRequestView {
            name: Seq::empty(),
        }
    }
}

impl Default for GetSecretRequest {
    fn default() -> (r: Self)
        ensures
            r@ == GetSecretRequestView::default_v(),
    {
        let r = GetSecretRequest {
            name: String::new(),
        };
        proof {
        }
        r
    }
}

impl GetSecretRequest {
    /// Sets the value of `name`.
    pub fn set_name(self, v: String) -> (r: Self)
        ensures
            r == (GetSecretRequest { name: v, ..self }),
        {
            GetSecretRequest { name: v, ..self }
    }
}

/// Request message for listing secret versions.
#[derive(Clone, Debug, PartialEq)]
#[non_exhaustive]
pub struct ListSecretVersionsRequest {
    /// Required. The resource name of the secret whose versions to list.
    pub parent: String,
    /// Optional. The maximum number of results returned in a single page.
    pub page_size: i32,
    /// Optional. Pagination token returned by an earlier list response.
    pub page_token: String,
    /// Optional. Filter string; empty lists all versions.
    pub filter: String,
}

/// The mathematical value of a [`ListSecretVersionsRequest`].
pub struct ListSecretVersionsRequestView {
    /// The value of `parent`.
    pub parent: Seq<char>,
    /// The value of `page_size`.
    pub page_size: i32,
    /// The value of `page_token`.
    pub page_token: Seq<char>,
    /// The value of `filter`.
    pub filter: Seq<char>,
}

impl View for ListSecretVersionsRequest {
    type V = ListSecretVersionsRequestView;

    open spec fn view(&self) -> ListSecretVersionsRequestView {
        ListSecretVersionsRequestView {
            parent: self.parent@,
            page_size: self.page_size,
            page_token: self.page_token@,
            filter: self.filter@,
        }
    }
}

impl ListSecretVersionsRequestView {
    /// The value every field of a [`ListSecretVersionsRequest`] starts from.
    pub open spec fn default_v() -> Self {
        ListSecretVersionsRequestView {
            parent: Seq::empty(),
            page_size: 0,
            page_token: Seq::empty(),
            filter: Seq::empty(),
        }
    }
}

impl Default for ListSecretVersionsRequest {
    fn default() -> (r: Self)
        ensures
            r@ == ListSecretVersionsRequestView::default_v(),
    {
        let r = ListSecretVersionsRequest {
            parent: String::new(),
            page_size: 0,
            page_token: String::new(),
            filter: String::new(),
        };
        proof {
        }
        r
    }
}

impl ListSecretVersionsRequest {
    /// Sets the value of `parent`.
    pub fn set_parent(self, v: String) -> (r: Self)
        ensures
            r == (ListSecretVersionsRequest { parent: v, ..self }),
        {
            ListSecretVersionsRequest { parent: v, ..self }
    }

    /// Sets the value of `page_size`.
    pub fn set_page_size(self, v: i32) -> (r: Self)
        ensures
            r == (ListSecretVersionsRequest { page_size: v, ..self }),
        {
            ListSecretVersionsRequest { page_size: v, ..self }
    }

    /// Sets the value of `page_token`.
    pub fn set_page_token(self, v: String) -> (r: Self)
        ensures
            r == (ListSecretVersionsRequest { page_token: v, ..self }),
        {
            ListSecretVersionsRequest { page_token: v, ..self }
    }

    /// Sets the value of `filter`.
    pub fn set_filter(self, v: String) -> (r: Self)
        ensures
            r == (ListSecretVersionsRequest { filter: v, ..self }),
        {
            ListSecretVersionsRequest { filter: v, ..self }
    }
}

/// Response message for listing secret versions.
#[derive(Clone, Debug, PartialEq)]
#[non_exhaustive]
pub struct ListSecretVersionsResponse {
    /// The list of versions, newest first.
    pub versions: Vec<crate::model::SecretVersion>,
    /// A token to retrieve the next page of results.
    pub next_page_token: String,
    /// The total number of versions, or 0 when a filter was set.
    pub total_size: i32,
}

/// The mathematical value of a [`ListSecretVersionsResponse`].
pub struct ListSecretVersionsResponseView {
    /// The value of `versions`.
    pub versions: Seq<crate::model::SecretVersionView>,
    /// The value of `next_page_token`.
    pub next_page_token: Seq<char>,
    /// The value of `total_size`.
    pub total_size: i32,
}

impl View for ListSecretVersionsResponse {
    type V = ListSecretVersionsResponseView;

    open spec fn view(&self) -> ListSecretVersionsResponseView {
        ListSecretVersionsResponseView {
            versions: Seq::new(self.versions@.len(), |i: int| self.versions@[i]@),
            next_page_token: self.next_page_token@,
            total_size: self.total_size,
        }
    }
}

impl ListSecretVersionsResponseView {
    /// The value every field of a [`ListSecretVersionsResponse`] starts from.
    pub open spec fn default_v() -> Self {
        ListSecretVersionsResponseView {
            versions: Seq::empty(),
            next_page_token: Seq::empty(),
            total_size: 0,
        }
    }
}

impl Default for ListSecretVersionsResponse {
    fn default() -> (r: Self)
        ensures
            r@ == ListSecretVersionsResponseView::default_v(),
    {
        let r = ListSecretVersionsResponse {
            versions: Vec::new(),
            next_page_token: String::new(),
            total_size: 0,
        };
        proof {
            assert(r@.versions =~= Seq::empty());
        }
        r
    }
}

impl ListSecretVersionsResponse {
    /// Sets the value of `versions`.
    pub fn set_versions(self, v: Vec<crate::model::SecretVersion>) -> (r: Self)
        ensures
            r == (ListSecretVersionsResponse { versions: v, ..self }),
        {
            ListSecretVersionsResponse { versions: v, ..self }
    }

    /// Sets the value of `next_page_token`.
    pub fn set_next_page_token(self, v: String) -> (r: Self)
        ensures
            r == (ListSecretVersionsResponse { next_page_token: v, ..self }),
        {
            ListSecretVersionsResponse { next_page_token: v, ..self }
    }

    /// Sets the value of `total_size`.
    pub fn set_total_size(self, v: i32) -> (r: Self)
        ensures
            r == (ListSecretVersionsResponse { total_size: v, ..self }),
        {
            ListSecretVersionsResponse { total_size: v, ..self }
    }
}

/// Request message for reading a secret version.
#[derive(Clone, Debug, PartialEq)]
#[non_exhaustive]
pub struct GetSecretVersionRequest {
    /// Required. The resource name of the version, in the format `projects/*/secrets/*/versions/*`.
    pub name: String,
}

/// The mathematical value of a [`GetSecretVersionRequest`].
pub struct GetSecretVersionRequestView {
    /// The value of `name`.
    pub name: Seq<char>,
}

impl View for GetSecretVersionRequest {
    type V = GetSecretVersionRequestView;

    open spec fn view(&self) -> GetSecretVersionRequestView {
        GetSecretVersionRequestView {
            name: self.name@,
        }
    }
}

impl GetSecretVersionRequestView {
    /// The value every field of a [`GetSecretVersionRequest`] starts from.
    pub open spec fn default_v() -> Self {
        GetSecretVersionRequestView {
            name: Seq::empty(),
        }
    }
}

impl Default for GetSecretVersionRequest {
    fn default() -> (r: Self)
        ensures
            r@ == GetSecretVersionRequestView::default_v(),
    {
        let r = GetSecretVersionRequest {
            name: String::new(),
        };
        proof {
        }
        r
    }
}

impl GetSecretVersionRequest {
    /// Sets the value of `name`.
    pub fn set_name(self, v: String) -> (r: Self)
        ensures
            r == (GetSecretVersionRequest { name: v, ..self }),
        {
            GetSecretVersionRequest { name: v, ..self }
    }
}

/// Request message for updating a secret.
#[derive(Clone, Debug, PartialEq)]
#[non_exhaustive]
pub struct UpdateSecretRequest {
    /// Required. The secret with updated field values.
    pub secret: Option<crate::model::Secret>,
    /// Required. Specifies the fields to be updated.
    pub update_mask: Option<FieldMask>,
}

/// The mathematical value of a [`UpdateSecretRequest`].
pub struct UpdateSecretRequestView {
    /// The value of `secret`.
    pub secret: Option<crate::model::SecretView>,
    /// The value of `update_mask`.
    pub update_mask: Option<Seq<Seq<char>>>,
}

impl View for UpdateSecretRequest {
    type V = UpdateSecretRequestView;

    open spec fn view(&self) -> UpdateSecretRequestView {
        UpdateSecretRequestView {
            secret: match self.secret { Some(v) => Some(v@), None => None },
            update_mask: match self.update_mask { Some(m) => Some(m.paths.deep_view()), None => None },
        }
    }
}

impl UpdateSecretRequestView {
    /// The value every field of a [`UpdateSecretRequest`] starts from.
    pub open spec fn default_v() -> Self {
        UpdateSecretRequestView {
            secret: None,
            update_mask: None,
        }
    }
}

impl Default for UpdateSecretRequest {
    fn default() -> (r: Self)
        ensures
            r@ == UpdateSecretRequestView::default_v(),
    {
        let r = UpdateSecretRequest {
            secret: None,
            update_mask: None,
        };
        proof {
        }
        r
    }
}

impl UpdateSecretRequest {
    /// Sets the value of `secret`.
    pub fn set_secret(self, v: Option<crate::model::Secret>) -> (r: Self)
        ensures
            r == (UpdateSecretRequest { secret: v, ..self }),
        {
            UpdateSecretRequest { secret: v, ..self }
    }

    /// Sets the value of `update_mask`.
    pub fn set_update_mask(self, v: Option<FieldMask>) -> (r: Self)
        ensures
            r == (UpdateSecretRequest { update_mask: v, ..self }),
        {
            UpdateSecretRequest { update_mask: v, ..self }
    }
}

/// Request message for accessing a secret version's payload.
#[derive(Clone, Debug, PartialEq)]
#[non_exhaustive]
pub struct AccessSecretVersionRequest {
    /// Required. The resource name of the version, in the format `projects/*/secrets/*/versions/*`.
    pub name: String,
}

/// The mathematical value of a [`AccessSecretVersionRequest`].
pub struct AccessSecretVersionRequestView {
    /// The value of `name`.
    pub name: Seq<char>,
}

impl View for AccessSecretVersionRequest {
    type V = AccessSecretVersionRequestView;

    open spec fn view(&self) -> AccessSecretVersionRequestView {
        AccessSecretVersionRequestView {
            name: self.name@,
        }
    }
}

impl AccessSecretVersionRequestView {
    /// The value every field of a [`AccessSecretVersionRequest`] starts from.
    pub open spec fn default_v() -> Self {
        AccessSecretVersionRequestView {
            name: Seq::empty(),
        }
    }
}

impl Default for AccessSecretVersionRequest {
    fn default() -> (r: Self)
        ensures
            r@ == AccessSecretVersionRequestView::default_v(),
    {
        let r = AccessSecretVersionRequest {
            name: String::new(),
        };
        proof {
        }
        r
    }
}

impl AccessSecretVersionRequest {
    /// Sets the value of `name`.
    pub fn set_name(self, v: String) -> (r: Self)
        ensures
            r == (AccessSecretVersionRequest { name: v, ..self }),
        {
            AccessSecretVersionRequest { name: v, ..self }
    }
}

/// Response message for accessing a secret version's payload.
#[derive(Clone, Debug, PartialEq)]
#[non_exhaustive]
pub struct AccessSecretVersionResponse {
    /// The resource name of the version that was accessed.
    pub name: String,
    /// The secret payload.
    pub payload: Option<crate::model::SecretPayload>,
}

/// The mathematical value of a [`AccessSecretVersionResponse`].
pub struct AccessSecretVersionResponseView {
    /// The value of `name`.
    pub name: Seq<char>,
    /// The value of `payload`.
    pub payload: Option<crate::model::SecretPayloadView>,
}

impl View for AccessSecretVersionResponse {
    type V = AccessSecretVersionResponseView;

    open spec fn view(&self) -> AccessSecretVersionResponseView {
        AccessSecretVersionResponseView {
            name: self.name@,
            payload: match self.payload { Some(v) => Some(v@), None => None },
        }
    }
}

impl AccessSecretVersionResponseView {
    /// The value every field of a [`AccessSecretVersionResponse`] starts from.
    pub open spec fn default_v() -> Self {
        AccessSecretVersionResponseView {
            name: Seq::empty(),
            payload: None,
        }
    }
}

impl Default for AccessSecretVersionResponse {
    fn default() -> (r: Self)
        ensures
            r@ == AccessSecretVersionResponseView::default_v(),
    {
        let r = AccessSecretVersionResponse {
            name: String::new(),
            payload: None,
        };
        proof {
        }
        r
    }
}

impl AccessSecretVersionResponse {
    /// Sets the value of `name`.
    pub fn set_name(self, v: String) -> (r: Self)
        ensures
            r == (AccessSecretVersionResponse { name: v, ..self }),
        {
            AccessSecretVersionResponse { name: v, ..self }
    }

    /// Sets the value of `payload`.
    pub fn set_payload(self, v: Option<crate::model::SecretPayload>) -> (r: Self)
        ensures
            r == (AccessSecretVersionResponse { payload: v, ..self }),
        {
            AccessSecretVersionResponse { payload: v, ..self }
    }
}

/// Request message for deleting a secret.
#[derive(Clone, Debug, PartialEq)]
#[non_exhaustive]
pub struct DeleteSecretRequest {
    /// Required. The resource name of the secret.
    pub name: String,
    /// Optional. Etag of the secret; when set, the request succeeds only if it matches.
    pub etag: String,
}

/// The mathematical value of a [`DeleteSecretRequest`].
pub struct DeleteSecretRequestView {
    /// The value of `name`.
    pub name: Seq<char>,
    /// The value of `etag`.
    pub etag: Seq<char>,
}

impl View for DeleteSecretRequest {
    type V = DeleteSecretRequestView;

    open spec fn view(&self) -> DeleteSecretRequestView {
        DeleteSecretRequestView {
            name: self.name@,
            etag: self.etag@,
        }
    }
}

impl DeleteSecretRequestView {
    /// The value every field of a [`DeleteSecretRequest`] starts from.
    pub open spec fn default_v() -> Self {
        DeleteSecretRequestView {
            name: Seq::empty(),
            etag: Seq::empty(),
        }
    }
}

impl Default for DeleteSecretRequest {
    fn default() -> (r: Self)
        ensures
            r@ == DeleteSecretRequestView::default_v(),
    {
        let r = DeleteSecretRequest {
            name: String::new(),
            etag: String::new(),
        };
        proof {
        }
        r
    }
}

impl DeleteSecretRequest {
    /// Sets the value of `name`.
    pub fn set_name(self, v: String) -> (r: Self)
        ensures
            r == (DeleteSecretRequest { name: v, ..self }),
        {
            DeleteSecretRequest { name: v, ..self }
    }

    /// Sets the value of `etag`.
    pub fn set_etag(self, v: String) -> (r: Self)
        ensures
            r == (DeleteSecretRequest { etag: v, ..self }),
        {
            DeleteSecretRequest { etag: v, ..self }
    }
}

/// Request message for disabling a secret version.
#[derive(Clone, Debug, PartialEq)]
#[non_exhaustive]
pub struct DisableSecretVersionRequest {
    /// Required. The resource name of the secret version.
    pub name: String,
    /// Optional. Etag of the secret version; when set, the request succeeds only if it matches.
    pub etag: String,
}

/// The mathematical value of a [`DisableSecretVersionRequest`].
pub struct DisableSecretVersionRequestView {
    /// The value of `name`.
    pub name: Seq<char>,
    /// The value of `etag`.
    pub etag: Seq<char>,
}

impl View for DisableSecretVersionRequest {
    type V = DisableSecretVersionRequestView;

    open spec fn view(&self) -> DisableSecretVersionRequestView {
        DisableSecretVersionRequestView {
            name: self.name@,
            etag: self.etag@,
        }
    }
}

impl DisableSecretVersionRequestView {
    /// The value every field of a [`DisableSecretVersionRequest`] starts from.
    pub open spec fn default_v() -> Self {
        DisableSecretVersionRequestView {
            name: Seq::empty(),
            etag: Seq::empty(),
        }
    }
}

impl Default for DisableSecretVersionRequest {
    fn default() -> (r: Self)
        ensures
            r@ == DisableSecretVersionRequestView::default_v(),
    {
        let r = DisableSecretVersionRequest {
            name: String::new(),
            etag: String::new(),
        };
        proof {
        }
        r
    }
}

impl DisableSecretVersionRequest {
    /// Sets the value of `name`.
    pub fn set_name(self, v: String) -> (r: Self)
        ensures
            r == (DisableSecretVersionRequest { name: v, ..self }),
        {
            DisableSecretVersionRequest { name: v, ..self }
    }

    /// Sets the value of `etag`.
    pub fn set_etag(self, v: String) -> (r: Self)
        ensures
            r == (DisableSecretVersionRequest { etag: v, ..self }),
        {
            DisableSecretVersionRequest { etag: v, ..self }
    }
}

/// Request message for enabling a secret version.
#[derive(Clone, Debug, PartialEq)]
#[non_exhaustive]
pub struct EnableSecretVersionRequest {
    /// Required. The resource name of the secret version.
    pub name: String,
    /// Optional. Etag of the secret version; when set, the request succeeds only if it matches.
    pub etag: String,
}

/// The mathematical value of a [`EnableSecretVersionRequest`].
pub struct EnableSecretVersionRequestView {
    /// The value of `name`.
    pub name: Seq<char>,
    /// The value of `etag`.
    pub etag: Seq<char>,
}

impl View for EnableSecretVersionRequest {
    type V = EnableSecretVersionRequestView;

    open spec fn view(&self) -> EnableSecretVersionRequestView {
        EnableSecretVersionRequestView {
            name: self.name@,
            etag: self.etag@,
        }
    }
}

impl EnableSecretVersionRequestView {
    /// The value every field of a [`EnableSecretVersionRequest`] starts from.
    pub open spec fn default_v() -> Self {
        EnableSecretVersionRequestView {
            name: Seq::empty(),
            etag: Seq::empty(),
        }
    }
}

impl Default for EnableSecretVersionRequest {
    fn default() -> (r: Self)
        ensures
            r@ == EnableSecretVersionRequestView::default_v(),
    {
        let r = EnableSecretVersionRequest {
            name: String::new(),
            etag: String::new(),
        };
        proof {
        }
        r
    }
}

impl EnableSecretVersionRequest {
    /// Sets the value of `name`.
    pub fn set_name(self, v: String) -> (r: Self)
        ensures
            r == (EnableSecretVersionRequest { name: v, ..self }),
        {
            EnableSecretVersionRequest { name: v, ..self }
    }

    /// Sets the value of `etag`.
    pub fn set_etag(self, v: String) -> (r: Self)
        ensures
            r == (EnableSecretVersionRequest { etag: v, ..self }),
        {
            EnableSecretVersionRequest { etag: v, ..self }
    }
}

/// Request message for destroying a secret version.
#[derive(Clone, Debug, PartialEq)]
#[non_exhaustive]
pub struct DestroySecretVersionRequest {
    /// Required. The resource name of the secret version.
    pub name: String,
    /// Optional. Etag of the secret version; when set, the request succeeds only if it matches.
    pub etag: String,
}

/// The mathematical value of a [`DestroySecretVersionRequest`].
pub struct DestroySecretVersionRequestView {
    /// The value of `name`.
    pub name: Seq<char>,
    /// The value of `etag`.
    pub etag: Seq<char>,
}

impl View for DestroySecretVersionRequest {
    type V = DestroySecretVersionRequestView;

    open spec fn view(&self) -> DestroySecretVersionRequestView {
        DestroySecretVersionRequestView {
            name: self.name@,
            etag: self.etag@,
        }
    }
}

impl DestroySecretVersionRequestView {
    /// The value every field of a [`DestroySecretVersionRequest`] starts from.
    pub open spec fn default_v() -> Self {
        DestroySecretVersionRequestView {
            name: Seq::empty(),
            etag: Seq::empty(),
        }
    }
}

impl Default for DestroySecretVersionRequest {
    fn default() -> (r: Self)
        ensures
            r@ == DestroySecretVersionRequestView::default_v(),
    {
        let r = DestroySecretVersionRequest {
            name: String::new(),
            etag: String::new(),
        };
        proof {
        }
        r
    }
}

impl DestroySecretVersionRequest {
    /// Sets the value of `name`.
    pub fn set_name(self, v: String) -> (r: Self)
        ensures
            r == (DestroySecretVersionRequest { name: v, ..self }),
        {
            DestroySecretVersionRequest { name: v, ..self }
    }

    /// Sets the value of `etag`.
    pub fn set_etag(self, v: String) -> (r: Self)
        ensures
            r == (DestroySecretVersionRequest { etag: v, ..self }),
        {
            DestroySecretVersionRequest { etag: v, ..self }
    }
}
} // verus!
