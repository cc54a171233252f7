//! Tests of schema registration, statement synthesis and tri-state binding.

use scyllax::error::{BuildUpsertQueryError, SchemaError, ScyllaxError, SerializeValuesError, attach_field};
use scyllax::person::{PersonData, PersonId, PersonKind, UpsertPerson, encode_person_data, encode_person_kind};
use scyllax::queries::{CoalescingPolicy, Query, identity_key};
use scyllax::schema::{FieldDescriptor, SchemaDescriptor};
use scyllax::upsert::build;
use scyllax::values::{
    EncodedValue, SerializedValues, TriStateValue, encode_i32, encode_i64, encode_opt_i32, encode_string,
    encode_u128,
};

fn field(name: &str, rename: Option<&str>, primary_key: bool) -> FieldDescriptor {
    FieldDescriptor {
        name: name.to_string(),
        rename: rename.map(|r| r.to_string()),
        primary_key,
    }
}

fn person_like_schema() -> SchemaDescriptor {
    SchemaDescriptor::new(
        "person".to_string(),
        vec![
            field("id", None, true),
            field("email", None, false),
            field("age", None, false),
            field("data", None, false),
            field("kind", None, false),
            field("created_at", Some("createdAt"), false),
        ],
    )
    .unwrap()
}

#[test]
fn schema_without_primary_key_is_rejected() {
    let r = SchemaDescriptor::new(
        "person".to_string(),
        vec![field("email", None, false), field("age", None, false)],
    );
    assert_eq!(r.unwrap_err(), SchemaError::NoPrimaryKey);
}

#[test]
fn resolve_storage_identifier_quotes() {
    assert_eq!(
        SchemaDescriptor::resolve_storage_identifier(&field("email", None, false)),
        r#""email""#
    );
    assert_eq!(
        SchemaDescriptor::resolve_storage_identifier(&field("created_at", Some("createdAt"), false)),
        r#""createdAt""#
    );
}

#[test]
fn keys_follow_declaration_order() {
    let s = person_like_schema();
    let keys = s.keys();
    assert_eq!(keys.len(), 6);
    assert_eq!(
        keys,
        vec![
            r#""id""#.to_string(),
            r#""email""#.to_string(),
            r#""age""#.to_string(),
            r#""data""#.to_string(),
            r#""kind""#.to_string(),
            r#""createdAt""#.to_string()
        ]
    );
    assert_eq!(s.pks(), vec![r#""id""#.to_string()]);
}

#[test]
fn statement_text_exact() {
    let s = person_like_schema();
    let (plan, text) = build(&s, false);
    assert_eq!(
        text,
        r#"update person set "email" = :email, "age" = :age, "data" = :data, "kind" = :kind, "createdAt" = :created_at where "id" = :id;"#
    );
    assert_eq!(plan.table, "person");
    assert_eq!(plan.ttl_param, None);
    assert_eq!(plan.set_pairs.len(), 5);
    assert_eq!(plan.set_pairs[4], (r#""createdAt""#.to_string(), "created_at".to_string()));
    assert_eq!(plan.where_pairs, vec![(r#""id""#.to_string(), "id".to_string())]);
}

#[test]
fn statement_text_with_ttl() {
    let s = person_like_schema();
    let (plan, text) = build(&s, true);
    assert_eq!(
        text,
        r#"update person using ttl :set_ttl set "email" = :email, "age" = :age, "data" = :data, "kind" = :kind, "createdAt" = :created_at where "id" = :id;"#
    );
    assert_eq!(plan.ttl_param, Some("set_ttl".to_string()));
}

#[test]
fn statement_text_is_deterministic() {
    let s = person_like_schema();
    let (_, t1) = build(&s, false);
    let (_, t2) = build(&s, false);
    assert_eq!(t1, t2);
}

#[test]
fn unset_field_binds_the_unchanged_marker() {
    let upsert = UpsertPerson {
        id: PersonId(5),
        email: TriStateValue::Assigned("a@b.c".to_string()),
        age: TriStateValue::Unset,
        data: TriStateValue::Assigned(None),
        kind: TriStateValue::Assigned(PersonKind::Student),
        created_at: TriStateValue::Assigned(100),
    };
    let values = upsert.bind().unwrap();
    // The unset field carries the marker, distinct from the explicit null
    // that an assigned `None` produces.
    assert_eq!(*values.entry(1), (Some("age".to_string()), EncodedValue::Unset));
    assert_eq!(*values.entry(2), (Some("data".to_string()), EncodedValue::Null));
    assert_ne!(EncodedValue::Unset, EncodedValue::Null);
    assert_ne!(EncodedValue::Unset, EncodedValue::Bytes(vec![]));
}

#[test]
fn mixing_named_and_positional_is_rejected() {
    let mut sv = SerializedValues::new();
    sv.add_value(encode_i32(1)).unwrap();
    assert_eq!(
        sv.add_named_value("x", encode_i32(2)),
        Err(SerializeValuesError::MixingNamedAndNotNamedValues)
    );
    let mut sv = SerializedValues::new();
    sv.add_named_value("x", encode_i32(1)).unwrap();
    assert_eq!(
        sv.add_value(encode_i32(2)),
        Err(SerializeValuesError::MixingNamedAndNotNamedValues)
    );
}

#[test]
fn too_many_values_is_rejected() {
    let mut sv = SerializedValues::new();
    for _ in 0..65535 {
        sv.add_value(EncodedValue::Null).unwrap();
    }
    assert_eq!(sv.add_value(EncodedValue::Null), Err(SerializeValuesError::TooManyValues));
}

#[test]
fn container_errors_carry_the_field() {
    assert_eq!(
        attach_field(SerializeValuesError::TooManyValues, "email".to_string()),
        BuildUpsertQueryError::TooManyValues {
            field: "email".to_string()
        }
    );
    assert_eq!(
        attach_field(SerializeValuesError::ValueTooBig, "data".to_string()),
        BuildUpsertQueryError::ValueTooBig {
            field: "data".to_string()
        }
    );
    assert_eq!(
        attach_field(SerializeValuesError::MixingNamedAndNotNamedValues, "x".to_string()),
        BuildUpsertQueryError::MixingNamedAndNotNamedValues
    );
    assert!(matches!(
        BuildUpsertQueryError::ParseError {
            field: "data".to_string()
        },
        BuildUpsertQueryError::ParseError { .. }
    ));
}

#[test]
fn encoders_produce_exact_bytes() {
    assert_eq!(encode_i32(1), EncodedValue::Bytes(vec![0, 0, 0, 1]));
    assert_eq!(encode_i32(-1), EncodedValue::Bytes(vec![0xff, 0xff, 0xff, 0xff]));
    assert_eq!(encode_i64(258), EncodedValue::Bytes(vec![0, 0, 0, 0, 0, 0, 1, 2]));
    assert_eq!(
        encode_u128(1),
        EncodedValue::Bytes(vec![0, 0, 0, 0, 0, 0, 0, 0, 0, 0, 0, 0, 0, 0, 0, 1])
    );
    assert_eq!(encode_string("ab"), EncodedValue::Bytes(vec![0x61, 0x62]));
    assert_eq!(encode_opt_i32(&None), EncodedValue::Null);
    assert_eq!(encode_opt_i32(&Some(2)), EncodedValue::Bytes(vec![0, 0, 0, 2]));
    assert_eq!(encode_person_kind(&PersonKind::Staff), EncodedValue::Bytes(vec![0, 0, 0, 0]));
    assert_eq!(encode_person_kind(&PersonKind::Parent), EncodedValue::Bytes(vec![0, 0, 0, 1]));
    assert_eq!(encode_person_kind(&PersonKind::Student), EncodedValue::Bytes(vec![0, 0, 0, 2]));
}

#[test]
fn person_data_encodes_as_stored_text() {
    assert_eq!(
        encode_person_data(&PersonData { stripe_id: None }),
        EncodedValue::Bytes(br#"{"stripeId":null}"#.to_vec())
    );
    assert_eq!(
        encode_person_data(&PersonData {
            stripe_id: Some("cus_42".to_string())
        }),
        EncodedValue::Bytes(br#"{"stripeId":"cus_42"}"#.to_vec())
    );
    assert_eq!(
        encode_person_data(&PersonData {
            stripe_id: Some(r#"a"b\c"#.to_string())
        }),
        EncodedValue::Bytes(br#"{"stripeId":"a\"b\\c"}"#.to_vec())
    );
}

#[test]
fn single_row_outcomes() {
    assert_eq!(
        scyllax::queries::single_row::<i32>(vec![]),
        Err(ScyllaxError::NoRowsFound)
    );
    assert_eq!(scyllax::queries::single_row(vec![5, 6]), Ok(5));
}

#[test]
fn coalescing_defaults_and_identity_key() {
    assert!(CoalescingPolicy::default().coalesce_eligible);

    let mut a = SerializedValues::new();
    a.add_named_value("id", encode_i32(1)).unwrap();
    let mut b = SerializedValues::new();
    b.add_named_value("id", encode_i32(1)).unwrap();
    assert_eq!(identity_key("select", &a), identity_key("select", &b));

    let mut c = SerializedValues::new();
    c.add_named_value("id", encode_i32(2)).unwrap();
    assert_ne!(identity_key("select", &a), identity_key("select", &c));
    assert_ne!(identity_key("select", &a), identity_key("update", &a));

    let mut unset = SerializedValues::new();
    unset.add_named_value("id", EncodedValue::Unset).unwrap();
    let mut null = SerializedValues::new();
    null.add_named_value("id", EncodedValue::Null).unwrap();
    assert_ne!(identity_key("select", &unset), identity_key("select", &null));
}
