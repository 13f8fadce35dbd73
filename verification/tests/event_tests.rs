use stream_bridge::event::{
    classify, decode, encode_to_object, AccountEvent, DecodeError, Event, ProjectEvent,
};
use stream_bridge::json::JsonValue;

const SAMPLE_PROJECT_ID: &str = "6f2a7d02-1c9b-4a8e-9b3f-2d5c4a1e8f00";
const SAMPLE_ENTITY_ID: &str = "0a1b2c3d-4e5f-6071-8293-a4b5c6d7e8f9";

fn project_id_u128() -> u128 {
    uuid::Uuid::parse_str(SAMPLE_PROJECT_ID).unwrap().as_u128()
}

#[test]
fn deserializes_project_events() {
    let payload = format!(
        r#"{{"ProjectId":"{}","EntityType":"task","EntityId":"{}"}}"#,
        SAMPLE_PROJECT_ID, SAMPLE_ENTITY_ID
    );
    let deserialized = decode(payload.as_bytes()).expect("successful deserialization");
    assert_eq!(
        deserialized,
        Event::Project(ProjectEvent {
            project_id: project_id_u128(),
            entity_type: "task".to_string(),
            entity_id: SAMPLE_ENTITY_ID.to_string(),
            event_data: Vec::new(),
        })
    );
}

#[test]
fn deserializes_account_events() {
    let sample_account_id: u64 = 1234567890123456789;
    let payload = format!(r#"{{"AccountId":{}}}"#, sample_account_id);
    let deserialized = decode(payload.as_bytes()).expect("successful deserialization");
    assert_eq!(
        deserialized,
        Event::Account(AccountEvent {
            account_id: sample_account_id,
            event_data: Vec::new(),
        })
    );
}

#[test]
fn puts_extra_fields_in_map() {
    let sample_account_id: u64 = 987654321;
    let payload = format!(
        r#"{{"AccountId":{},"Foo":"bar","Baz":{{"InnerField":200}}}}"#,
        sample_account_id
    );
    let deserialized = decode(payload.as_bytes()).expect("successful deserialization");
    let expected_map = vec![
        ("Foo".to_string(), JsonValue::Text("bar".to_string())),
        (
            "Baz".to_string(),
            JsonValue::Obj(vec![("InnerField".to_string(), JsonValue::UInt(200))]),
        ),
    ];
    assert_eq!(
        deserialized,
        Event::Account(AccountEvent {
            account_id: sample_account_id,
            event_data: expected_map,
        })
    );
}

#[test]
fn fails_to_deserialize_invalid_event() {
    let result = decode(b"{}");
    assert!(result.is_err());
}

#[test]
fn it_works() {
    assert!(true)
}

#[test]
fn project_extras_keep_their_order_whatever_the_key_positions() {
    let payload = format!(
        r#"{{"One":1,"EntityId":"{}","Two":2,"ProjectId":"{}","EntityType":"task"}}"#,
        SAMPLE_ENTITY_ID, SAMPLE_PROJECT_ID
    );
    let deserialized = decode(payload.as_bytes()).expect("successful deserialization");
    assert_eq!(
        deserialized,
        Event::Project(ProjectEvent {
            project_id: project_id_u128(),
            entity_type: "task".to_string(),
            entity_id: SAMPLE_ENTITY_ID.to_string(),
            event_data: vec![
                ("One".to_string(), JsonValue::UInt(1)),
                ("Two".to_string(), JsonValue::UInt(2)),
            ],
        })
    );
}

#[test]
fn missing_discriminator_key_is_reported() {
    assert_eq!(
        decode(br#"{"Foo":"bar"}"#),
        Err(DecodeError::MissingDiscriminatorKey)
    );
}

#[test]
fn non_object_payload_is_reported() {
    assert_eq!(decode(b"[1,2,3]"), Err(DecodeError::NotAnObject));
    assert_eq!(decode(b"42"), Err(DecodeError::NotAnObject));
}

#[test]
fn malformed_payloads_are_reported_not_fatal() {
    assert_eq!(decode(b""), Err(DecodeError::MalformedPayload));
    assert_eq!(decode(br#"{"AccountId":"#), Err(DecodeError::MalformedPayload));
    assert_eq!(decode(&[0xff, 0xfe, 0x00]), Err(DecodeError::MalformedPayload));
    assert_eq!(decode(b"{} trailing"), Err(DecodeError::MalformedPayload));
}

#[test]
fn invalid_project_event_is_reported() {
    // `ProjectId` present but not the text of an identifier.
    assert_eq!(
        decode(br#"{"ProjectId":"not-a-uuid","EntityType":"task","EntityId":"x"}"#),
        Err(DecodeError::InvalidProjectEvent)
    );
    // `ProjectId` present but not a string.
    assert_eq!(
        decode(br#"{"ProjectId":17,"EntityType":"task","EntityId":"x"}"#),
        Err(DecodeError::InvalidProjectEvent)
    );
    // Missing `EntityType` / `EntityId`.
    let payload = format!(r#"{{"ProjectId":"{}"}}"#, SAMPLE_PROJECT_ID);
    assert_eq!(
        decode(payload.as_bytes()),
        Err(DecodeError::InvalidProjectEvent)
    );
}

#[test]
fn invalid_account_event_is_reported() {
    assert_eq!(
        decode(br#"{"AccountId":-5}"#),
        Err(DecodeError::InvalidAccountEvent)
    );
    assert_eq!(
        decode(br#"{"AccountId":"12"}"#),
        Err(DecodeError::InvalidAccountEvent)
    );
    // Too large for an unsigned 64-bit integer.
    assert_eq!(
        decode(br#"{"AccountId":99999999999999999999999999}"#),
        Err(DecodeError::InvalidAccountEvent)
    );
}

#[test]
fn project_id_takes_precedence_over_account_id() {
    let payload = format!(
        r#"{{"ProjectId":"{}","EntityType":"t","EntityId":"e","AccountId":7}}"#,
        SAMPLE_PROJECT_ID
    );
    let deserialized = decode(payload.as_bytes()).expect("successful deserialization");
    assert_eq!(
        deserialized,
        Event::Project(ProjectEvent {
            project_id: project_id_u128(),
            entity_type: "t".to_string(),
            entity_id: "e".to_string(),
            event_data: vec![("AccountId".to_string(), JsonValue::UInt(7))],
        })
    );
}

#[test]
fn decoding_twice_yields_equal_events() {
    let payload = format!(
        r#"{{"ProjectId":"{}","EntityType":"task","EntityId":"{}","K":null}}"#,
        SAMPLE_PROJECT_ID, SAMPLE_ENTITY_ID
    );
    let first = decode(payload.as_bytes());
    let second = decode(payload.as_bytes());
    assert_eq!(first, second);
}

#[test]
fn encoding_then_classifying_reproduces_a_project_event() {
    let event = Event::Project(ProjectEvent {
        project_id: project_id_u128(),
        entity_type: "task".to_string(),
        entity_id: SAMPLE_ENTITY_ID.to_string(),
        event_data: vec![("Spare".to_string(), JsonValue::Bool(true))],
    });
    let expected = Event::Project(ProjectEvent {
        project_id: project_id_u128(),
        entity_type: "task".to_string(),
        entity_id: SAMPLE_ENTITY_ID.to_string(),
        event_data: vec![("Spare".to_string(), JsonValue::Bool(true))],
    });
    let object = encode_to_object(event);
    assert_eq!(classify(object), Ok(expected));
}

#[test]
fn encoding_then_classifying_reproduces_an_account_event() {
    let event = Event::Account(AccountEvent {
        account_id: 41,
        event_data: vec![("Spare".to_string(), JsonValue::Int(-3))],
    });
    let expected = Event::Account(AccountEvent {
        account_id: 41,
        event_data: vec![("Spare".to_string(), JsonValue::Int(-3))],
    });
    let object = encode_to_object(event);
    assert_eq!(classify(object), Ok(expected));
}

#[test]
fn decoded_identifier_matches_the_canonical_parse() {
    // The identifier text runs through the real parser: uppercase and
    // braced forms denote the same value.
    let payload = format!(
        r#"{{"ProjectId":"{}","EntityType":"t","EntityId":"e"}}"#,
        SAMPLE_PROJECT_ID.to_uppercase()
    );
    match decode(payload.as_bytes()) {
        Ok(Event::Project(p)) => assert_eq!(p.project_id, project_id_u128()),
        other => panic!("expected a project event, got {:?}", other),
    }
}
