//! Tests of the person entity: key resolution and upsert binding.

use scyllax::person::{
    GetPersonByEmail, GetPersonById, PersonData, PersonEntity, PersonId, PersonKind, UpsertPerson,
    UpsertPersonWithTTL, encode_person_data, encode_person_id, encode_person_kind,
};
use scyllax::queries::Query;
use scyllax::values::{EncodedValue, SerializedValues, TriStateValue, encode_i32, encode_string};

#[test]
fn test_pks() {
    assert_eq!(PersonEntity::pks(), vec![r#""id""#.to_string()]);
}

#[test]
fn test_keys() {
    assert_eq!(
        PersonEntity::keys(),
        vec![
            r#""id""#.to_string(),
            r#""email""#.to_string(),
            r#""age""#.to_string(),
            r#""data""#.to_string(),
            r#""kind""#.to_string(),
            r#""createdAt""#.to_string()
        ]
    );
}

#[test]
fn test_upsert() {
    let upsert = UpsertPerson {
        id: PersonId(0x1234_5678_9abc_def0),
        email: TriStateValue::Assigned("foo21@scyllax.local".to_string()),
        age: TriStateValue::Unset,
        kind: TriStateValue::Assigned(PersonKind::Parent),
        data: TriStateValue::Assigned(Some(PersonData {
            stripe_id: Some("stripe_id".to_string()),
        })),
        created_at: TriStateValue::Unset,
    };

    let query = <UpsertPerson as Query>::query();
    let values = <UpsertPerson as Query>::bind(&upsert).unwrap();

    assert_eq!(
        query,
        r#"update person set "email" = :email, "age" = :age, "data" = :data, "kind" = :kind, "createdAt" = :created_at where "id" = :id;"#
    );

    let mut result_values = SerializedValues::new();
    result_values
        .add_named_value("email", encode_string("foo21@scyllax.local"))
        .expect("failed to add value");
    result_values
        .add_named_value("age", EncodedValue::Unset)
        .expect("failed to add value");
    result_values
        .add_named_value(
            "data",
            encode_person_data(&PersonData {
                stripe_id: Some("stripe_id".to_string()),
            }),
        )
        .expect("failed to add value");
    result_values
        .add_named_value("kind", encode_person_kind(&PersonKind::Parent))
        .expect("failed to add value");
    result_values
        .add_named_value("created_at", EncodedValue::Unset)
        .expect("failed to add value");
    result_values
        .add_named_value("id", encode_person_id(&PersonId(0x1234_5678_9abc_def0)))
        .expect("failed to add value");

    assert_eq!(values, result_values);
}

#[test]
fn test_upsert_ttl() {
    let upsert = UpsertPersonWithTTL {
        id: PersonId(0x1234_5678_9abc_def0),
        email: TriStateValue::Assigned("foo21@scyllax.local".to_string()),
        age: TriStateValue::Unset,
        kind: TriStateValue::Assigned(PersonKind::Parent),
        data: TriStateValue::Assigned(Some(PersonData {
            stripe_id: Some("stripe_id".to_string()),
        })),
        created_at: TriStateValue::Unset,

        set_ttl: 300,
    };

    let query = <UpsertPersonWithTTL as Query>::query();
    let values = <UpsertPersonWithTTL as Query>::bind(&upsert).unwrap();

    assert_eq!(
        query,
        r#"update person using ttl :set_ttl set "email" = :email, "age" = :age, "data" = :data, "kind" = :kind, "createdAt" = :created_at where "id" = :id;"#
    );

    let mut result_values = SerializedValues::new();
    result_values
        .add_named_value("email", encode_string("foo21@scyllax.local"))
        .expect("failed to add value");
    result_values
        .add_named_value("age", EncodedValue::Unset)
        .expect("failed to add value");
    result_values
        .add_named_value(
            "data",
            encode_person_data(&PersonData {
                stripe_id: Some("stripe_id".to_string()),
            }),
        )
        .expect("failed to add value");
    result_values
        .add_named_value("kind", encode_person_kind(&PersonKind::Parent))
        .expect("failed to add value");
    result_values
        .add_named_value("created_at", EncodedValue::Unset)
        .expect("failed to add value");
    result_values
        .add_named_value("id", encode_person_id(&PersonId(0x1234_5678_9abc_def0)))
        .expect("failed to add value");

    result_values
        .add_named_value("set_ttl", encode_i32(300))
        .expect("failed to add value");

    assert_eq!(values, result_values);
}

#[test]
fn ttl_value_binds_last() {
    let upsert = UpsertPersonWithTTL {
        id: PersonId(9),
        email: TriStateValue::Assigned("a@b.c".to_string()),
        age: TriStateValue::Assigned(Some(30)),
        kind: TriStateValue::Assigned(PersonKind::Staff),
        data: TriStateValue::Assigned(None),
        created_at: TriStateValue::Assigned(17),
        set_ttl: 60,
    };
    let values = <UpsertPersonWithTTL as Query>::bind(&upsert).unwrap();
    assert_eq!(values.len(), 7);
    let last = values.entry(6);
    assert_eq!(last.0.as_deref(), Some("set_ttl"));
    assert_eq!(last.1, encode_i32(60));
}

#[test]
fn get_person_queries() {
    let by_id = GetPersonById { id: PersonId(7) };
    assert_eq!(
        <GetPersonById as Query>::query(),
        "select * from person where id = ? limit 1"
    );
    let bound = by_id.bind().unwrap();
    assert_eq!(bound.len(), 1);
    assert_eq!(bound.entry(0).0, None);
    assert_eq!(bound.entry(0).1, encode_person_id(&PersonId(7)));

    let by_email = GetPersonByEmail {
        email: "foo@scyllax.local".to_string(),
    };
    assert_eq!(
        <GetPersonByEmail as Query>::query(),
        "select * from person_by_email where email = ? limit 1"
    );
    let bound = by_email.bind().unwrap();
    assert_eq!(bound.len(), 1);
    assert_eq!(bound.entry(0).1, encode_string("foo@scyllax.local"));
}
