//! Round-trip and shape tests for the record codec.

use secretmanager::codec::{
    decode_expiration, decode_replication_union, decode_secret, decode_secret_payload,
    decode_secret_version, decode_update_secret_request, encode_expiration,
    encode_replication_union, encode_secret, encode_secret_payload, encode_secret_version,
    encode_update_secret_request,
};
use secretmanager::error::ErrorKind;
use secretmanager::json::Json;
use secretmanager::model::replication::user_managed::Replica;
use secretmanager::model::replication::{Automatic, Replication as ReplicationChoice, UserManaged};
use secretmanager::model::secret::Expiration;
use secretmanager::model::secret_version::State;
use secretmanager::model::{
    CustomerManagedEncryption, Replication, Rotation, Secret, SecretPayload, SecretVersion,
    Topic, UpdateSecretRequest,
};
use secretmanager::wellknown::{Duration, FieldMask, Timestamp};

fn full_secret() -> Secret {
    let replica = Replica::default().set_location("us-east1".to_string());
    let user_managed = UserManaged::default().set_replicas(vec![replica]);
    Secret::default()
        .set_name("projects/p/secrets/s".to_string())
        .set_replication(Some(
            Replication::default()
                .set_replication(Some(ReplicationChoice::UserManaged(user_managed))),
        ))
        .set_create_time(Timestamp::new(1747388772, 500_000_000))
        .set_labels(vec![("env".to_string(), "prod".to_string())])
        .set_topics(vec![Topic::default().set_name("projects/p/topics/t".to_string())])
        .set_etag("etag-1".to_string())
        .set_rotation(Some(
            Rotation::default()
                .set_next_rotation_time(Timestamp::new(1747388772, 0))
                .set_rotation_period(Duration::new(3600, 0)),
        ))
        .set_version_aliases(vec![("latest-stable".to_string(), 42i64)])
        .set_annotations(vec![
            ("team".to_string(), "db".to_string()),
            ("tier".to_string(), "gold".to_string()),
        ])
        .set_version_destroy_ttl(Duration::new(86400, 500_000_000))
        .set_customer_managed_encryption(Some(
            CustomerManagedEncryption::default().set_kms_key_name("kms-key".to_string()),
        ))
        .set_expiration(Some(Expiration::Ttl(Duration::new(12, 340_000_000).unwrap())))
}

#[test]
fn secret_round_trips_with_every_field_kind() {
    let s = full_secret();
    let wire = encode_secret(&s);
    let back = decode_secret(&wire).expect("decoding an encoded secret succeeds");
    assert_eq!(back, s);
}

#[test]
fn secret_round_trips_with_absent_optionals_and_empty_sequences() {
    let s = Secret::default()
        .set_name("projects/p/secrets/empty".to_string())
        .set_topics(Vec::new());
    let wire = encode_secret(&s);
    let back = decode_secret(&wire).expect("decoding succeeds");
    assert_eq!(back, s);
}

#[test]
fn secret_round_trips_with_expire_time_alternative() {
    let s = Secret::default()
        .set_name("projects/p/secrets/exp".to_string())
        .set_expiration(Some(Expiration::ExpireTime(
            Timestamp::new(1747388772, 0).unwrap(),
        )));
    let wire = encode_secret(&s);
    let back = decode_secret(&wire).expect("decoding succeeds");
    assert_eq!(back, s);
}

#[test]
fn secret_version_round_trips() {
    let v = SecretVersion::default()
        .set_name("projects/p/secrets/s/versions/1".to_string())
        .set_create_time(Timestamp::new(100, 1))
        .set_state(State(String::new()).set_value("ENABLED".to_string()))
        .set_etag("e".to_string())
        .set_client_specified_payload_checksum(true);
    let wire = encode_secret_version(&v);
    let back = decode_secret_version(&wire).expect("decoding succeeds");
    assert_eq!(back, v);
}

#[test]
fn replication_union_round_trips_both_alternatives() {
    let auto = ReplicationChoice::Automatic(Automatic::default());
    let wire = encode_replication_union(&auto);
    assert_eq!(decode_replication_union(&wire).unwrap(), auto);

    let um = ReplicationChoice::UserManaged(
        UserManaged::default()
            .set_replicas(vec![Replica::default().set_location("us-west1".to_string())]),
    );
    let wire = encode_replication_union(&um);
    assert_eq!(decode_replication_union(&wire).unwrap(), um);
}

#[test]
fn union_ambiguity_resolves_to_first_declared_alternative() {
    // the empty object structurally matches both alternatives; the first
    // declared one wins
    let wire = Json::Obj(Vec::new());
    let got = decode_replication_union(&wire).unwrap();
    assert!(matches!(got, ReplicationChoice::Automatic(_)));
}

#[test]
fn expiration_union_round_trips_and_keeps_alternatives_apart() {
    let e1 = Expiration::ExpireTime(Timestamp::new(1747388772, 0).unwrap());
    let w1 = encode_expiration(&e1);
    assert_eq!(decode_expiration(&w1).unwrap(), e1);

    let e2 = Expiration::Ttl(Duration::new(-12, -340_000_000).unwrap());
    let w2 = encode_expiration(&e2);
    assert_eq!(decode_expiration(&w2).unwrap(), e2);
}

#[test]
fn map_omission_empty_map_emits_no_key() {
    let s = Secret::default().set_name("n".to_string());
    let wire = encode_secret(&s);
    let entries = match wire {
        Json::Obj(entries) => entries,
        _ => panic!("a record encodes as an object"),
    };
    assert!(entries.iter().all(|(k, _)| k != "labels"));
    assert!(entries.iter().all(|(k, _)| k != "annotations"));
    assert!(entries.iter().all(|(k, _)| k != "versionAliases"));
}

#[test]
fn map_omission_single_entry_map_emits_exactly_it() {
    let s = Secret::default()
        .set_labels(vec![("env".to_string(), "prod".to_string())]);
    let wire = encode_secret(&s);
    let entries = match wire {
        Json::Obj(entries) => entries,
        _ => panic!("a record encodes as an object"),
    };
    let labels: Vec<_> = entries.iter().filter(|(k, _)| k == "labels").collect();
    assert_eq!(labels.len(), 1);
    match &labels[0].1 {
        Json::Obj(m) => {
            assert_eq!(m.len(), 1);
            assert_eq!(m[0].0, "env");
            assert!(matches!(&m[0].1, Json::Str(v) if v == "prod"));
        },
        _ => panic!("a mapping encodes as an object"),
    }
}

#[test]
fn unknown_field_is_tolerated_and_ignored() {
    let known = vec![("name".to_string(), Json::Str("n".to_string()))];
    let mut with_unknown = known.clone();
    with_unknown.push((
        "somethingAddedLater".to_string(),
        Json::Obj(vec![("x".to_string(), Json::Int(1))]),
    ));
    let a = decode_secret(&Json::Obj(known)).unwrap();
    let b = decode_secret(&Json::Obj(with_unknown)).unwrap();
    assert_eq!(a, b);
    assert_eq!(b.name, "n");
}

#[test]
fn missing_fields_default_and_null_counts_as_absent() {
    let wire = Json::Obj(vec![
        ("etag".to_string(), Json::Str("e".to_string())),
        ("rotation".to_string(), Json::Null),
    ]);
    let s = decode_secret(&wire).unwrap();
    assert_eq!(s.name, "");
    assert_eq!(s.etag, "e");
    assert_eq!(s.rotation, None);
    assert!(s.topics.is_empty());
}

#[test]
fn wrong_shape_is_a_serialization_error_naming_the_field() {
    let wire = Json::Obj(vec![("name".to_string(), Json::Int(3))]);
    let e = decode_secret(&wire).unwrap_err();
    assert_eq!(e.kind(), ErrorKind::Serde);
    assert!(e.display_text().contains("name"));
}

#[test]
fn int64_max_encodes_as_quoted_decimal_string() {
    let p = SecretPayload::default().set_data_crc32c(Some(9223372036854775807i64));
    let wire = encode_secret_payload(&p);
    let entries = match wire {
        Json::Obj(entries) => entries,
        _ => panic!("a record encodes as an object"),
    };
    let crc = entries.iter().find(|(k, _)| k == "dataCrc32c").unwrap();
    assert!(matches!(&crc.1, Json::Str(v) if v == "9223372036854775807"));
}

#[test]
fn int64_field_rejects_bare_number() {
    let wire = Json::Obj(vec![(
        "dataCrc32c".to_string(),
        Json::Int(9223372036854775807i64),
    )]);
    let e = decode_secret_payload(&wire).unwrap_err();
    assert_eq!(e.kind(), ErrorKind::Serde);
}

#[test]
fn payload_round_trips_and_empty_data_encodes_to_empty_base64() {
    let p = SecretPayload::default()
        .set_data(vec![0u8, 255u8, 7u8])
        .set_data_crc32c(Some(-5i64));
    let wire = encode_secret_payload(&p);
    assert_eq!(decode_secret_payload(&wire).unwrap(), p);

    let empty = SecretPayload::default();
    let wire = encode_secret_payload(&empty);
    let entries = match &wire {
        Json::Obj(entries) => entries,
        _ => panic!("a record encodes as an object"),
    };
    let data = entries.iter().find(|(k, _)| k == "data").unwrap();
    assert!(matches!(&data.1, Json::Str(v) if v.is_empty()));
    assert_eq!(decode_secret_payload(&wire).unwrap(), empty);
}

#[test]
fn invalid_base64_padding_is_a_serialization_error_naming_the_field() {
    let wire = Json::Obj(vec![("data".to_string(), Json::Str("QQ=".to_string()))]);
    let e = decode_secret_payload(&wire).unwrap_err();
    assert_eq!(e.kind(), ErrorKind::Serde);
    assert!(e.display_text().contains("data"));
}

#[test]
fn update_request_field_mask_round_trips_in_camel_case() {
    let r = UpdateSecretRequest::default().set_update_mask(Some(FieldMask {
        paths: vec!["user.display_name".to_string(), "photo".to_string()],
    }));
    let wire = encode_update_secret_request(&r);
    let entries = match &wire {
        Json::Obj(entries) => entries,
        _ => panic!("a record encodes as an object"),
    };
    let mask = entries.iter().find(|(k, _)| k == "updateMask").unwrap();
    assert!(matches!(&mask.1, Json::Str(v) if v == "user.displayName,photo"));
    assert_eq!(decode_update_secret_request(&wire).unwrap(), r);
}

#[test]
fn timestamp_text_is_rfc3339_and_round_trips() {
    let s = Secret::default().set_create_time(Timestamp::new(1747388772, 0));
    let wire = encode_secret(&s);
    let entries = match &wire {
        Json::Obj(entries) => entries,
        _ => panic!("a record encodes as an object"),
    };
    let ct = entries.iter().find(|(k, _)| k == "createTime").unwrap();
    assert!(matches!(&ct.1, Json::Str(v) if v == "2025-05-16T09:46:12Z"));
    assert_eq!(decode_secret(&wire).unwrap(), s);
}

#[test]
fn duration_text_is_canonical_and_round_trips() {
    let s = Secret::default().set_version_destroy_ttl(Duration::new(12, 340_000_000));
    let wire = encode_secret(&s);
    let entries = match &wire {
        Json::Obj(entries) => entries,
        _ => panic!("a record encodes as an object"),
    };
    let ttl = entries.iter().find(|(k, _)| k == "versionDestroyTtl").unwrap();
    assert!(matches!(&ttl.1, Json::Str(v) if v == "12.34s"));
    assert_eq!(decode_secret(&wire).unwrap(), s);
}

#[test]
fn record_decode_rejects_non_objects() {
    let e = decode_secret(&Json::Str("not an object".to_string())).unwrap_err();
    assert_eq!(e.kind(), ErrorKind::Serde);
}

#[test]
fn object_lookup_returns_the_first_matching_entry() {
    let entries = vec![
        ("a".to_string(), Json::Int(1)),
        ("b".to_string(), Json::Int(2)),
        ("a".to_string(), Json::Int(3)),
    ];
    assert!(matches!(Json::obj_get(&entries, "a"), Some(Json::Int(1))));
    assert!(matches!(Json::obj_get(&entries, "b"), Some(Json::Int(2))));
    assert!(Json::obj_get(&entries, "c").is_none());
}
