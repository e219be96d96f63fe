use json_replacer::attribute::ObjectAttributeDataType;
use json_replacer::reference::{
    ObjectAttributesData, ObjectAttributesDataAttributes, ObjectAttributesDataRelationships,
    ObjectAttributesRaw, Relationship,
};
use json_replacer::{
    JsonValue, ObjectEntity, Payload, ReferenceTable, Response, SearchQuery, SearchQueryCondition,
    SearchQueryConditionOperator, SearchQueryGroup, SearchQueryGroupOperator,
    preprocess_reference, process_object_entity, process_payload, process_response,
};

const TYPE_NAME_ID: &str = "019883f0-c110-7bc5-854e-26a7135a9ec0";

fn setup() -> ReferenceTable {
    let raw = ObjectAttributesRaw {
        data: vec![ObjectAttributesData {
            id: TYPE_NAME_ID.to_string(),
            attributes: ObjectAttributesDataAttributes {
                name: "Type_Name".to_string(),
                data_type: ObjectAttributeDataType::Picklist,
            },
            relationships: ObjectAttributesDataRelationships {
                picklist_options: Relationship { data: Some(vec![]) },
            },
        }],
        included: vec![],
    };
    preprocess_reference(raw)
}

#[test]
fn parse_reference() {
    let reference = setup();

    assert!(reference.contains_key("019883f0-c110-7bc5-854e-26a7135a9ec0"));
}

#[test]
fn parse_payload() {
    let reference = setup();

    let payload = Payload {
        object_attribute_ids: Some(vec![TYPE_NAME_ID.to_string()]),
        search_query: Some(SearchQuery {
            search_query_groups: vec![SearchQueryGroup {
                operator: SearchQueryGroupOperator::And,
                search_query_conditions: Some(vec![SearchQueryCondition {
                    operator: SearchQueryConditionOperator::Equal,
                    object_attribute_id: TYPE_NAME_ID.to_string(),
                    value: Some(JsonValue::Text(
                        "0198846b-29f1-7432-bd4b-e3fb62f9dd5c".to_string(),
                    )),
                }]),
                children: None,
            }],
        }),
        object_entity_attribute_values: None,
    };

    let payload = process_payload(&reference, payload);

    let object_attributes = payload
        .iter()
        .find(|(key, _)| key == "object_attributes")
        .map(|(_, value)| value)
        .unwrap();

    assert_eq!(
        object_attributes,
        &JsonValue::Array(vec![JsonValue::Text(
            "Type_Name, 019883f0-c110-7bc5-854e-26a7135a9ec0".to_string()
        )])
    );

    let search_query = payload
        .iter()
        .find(|(key, _)| key == "search_query")
        .map(|(_, value)| value)
        .unwrap();

    assert_eq!(
        search_query,
        &JsonValue::Text(
            "(AND (equal Type_Name \"not_found_picklist_label\"))".to_string()
        )
    );
}

#[test]
fn parse_response() {
    let reference = setup();

    let response = Response {
        data: vec![
            ObjectEntity {
                attributes: vec![(
                    "oa_019883f0_c110_7bc5_854e_26a7135a9ec0".to_string(),
                    JsonValue::Null,
                )],
            },
            ObjectEntity {
                attributes: vec![(
                    "oa_01988477_1111_7000_8000_000000000001".to_string(),
                    JsonValue::Text("plain".to_string()),
                )],
            },
        ],
    };

    let response = process_response(&reference, response);

    assert_eq!(response.len(), 2);
}

#[test]
fn parse_object_entity() {
    let reference = setup();

    let object_entity = vec![
        (
            "oa_019883f0_c110_7bc5_854e_26a7135a9ec0".to_string(),
            JsonValue::Null,
        ),
        (
            "oa_01988477_1111_7000_8000_000000000001".to_string(),
            JsonValue::Text("first".to_string()),
        ),
        (
            "oa_01988477_2222_7000_8000_000000000002".to_string(),
            JsonValue::Number("5".to_string()),
        ),
        ("created_at".to_string(), JsonValue::Text("now".to_string())),
    ];

    let entity = process_object_entity(&reference, object_entity);

    assert_eq!(entity.len(), 3);
}
