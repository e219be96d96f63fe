use json_replacer::attribute::ObjectAttributeDataType;
use json_replacer::query::parse_search_query;
use json_replacer::reference::{
    ObjectAttributesData, ObjectAttributesDataAttributes, ObjectAttributesDataRelationships,
    ObjectAttributesIncluded, ObjectAttributesIncludedAttributes, ObjectAttributesRaw,
    Relationship, RelationshipDataPicklistOption,
};
use json_replacer::{
    JsonValue, ObjectEntity, Payload, ReferenceTable, Response, SearchQuery, SearchQueryCondition,
    SearchQueryConditionOperator, SearchQueryGroup, SearchQueryGroupOperator,
    preprocess_reference, process_object_entity, process_payload, process_response,
};

fn attribute_record(
    id: &str,
    name: &str,
    data_type: ObjectAttributeDataType,
    option_ids: Option<Vec<&str>>,
) -> ObjectAttributesData {
    ObjectAttributesData {
        id: id.to_string(),
        attributes: ObjectAttributesDataAttributes {
            name: name.to_string(),
            data_type,
        },
        relationships: ObjectAttributesDataRelationships {
            picklist_options: Relationship {
                data: option_ids.map(|ids| {
                    ids.into_iter()
                        .map(|i| RelationshipDataPicklistOption { id: i.to_string() })
                        .collect()
                }),
            },
        },
    }
}

fn included_resource(id: &str, name: &str) -> (String, ObjectAttributesIncluded) {
    (
        id.to_string(),
        ObjectAttributesIncluded {
            id: id.to_string(),
            attributes: ObjectAttributesIncludedAttributes {
                name: name.to_string(),
            },
        },
    )
}

/// A table with a picklist attribute (two options), a plain string
/// attribute and a nested-form attribute.
fn rich_table() -> ReferenceTable {
    let raw = ObjectAttributesRaw {
        data: vec![
            attribute_record(
                "c0lor-aaaa",
                "Color",
                ObjectAttributeDataType::Picklist,
                Some(vec!["opt-red", "opt-blue"]),
            ),
            attribute_record("title-bbbb", "Title", ObjectAttributeDataType::String, None),
            attribute_record(
                "form-cccc",
                "Contacts",
                ObjectAttributeDataType::NestedForm,
                None,
            ),
        ],
        included: vec![
            included_resource("opt-red", "Red"),
            included_resource("opt-blue", "Blue"),
        ],
    };
    preprocess_reference(raw)
}

fn first_value<'a>(map: &'a [(String, JsonValue)], key: &str) -> &'a JsonValue {
    map.iter()
        .find(|(k, _)| k == key)
        .map(|(_, v)| v)
        .unwrap()
}

#[test]
fn known_attribute_key_becomes_display_name() {
    let table = rich_table();
    let entity = vec![(
        "oa_title_bbbb".to_string(),
        JsonValue::Text("hello".to_string()),
    )];
    let resolved = process_object_entity(&table, entity);
    assert_eq!(resolved.len(), 1);
    assert_eq!(resolved[0].0, "Title");
    assert_eq!(resolved[0].1, JsonValue::Text("hello".to_string()));
}

#[test]
fn picklist_value_resolves_to_option_label() {
    let table = rich_table();
    let entity = vec![(
        "oa_c0lor_aaaa".to_string(),
        JsonValue::Text("opt-red".to_string()),
    )];
    let resolved = process_object_entity(&table, entity);
    assert_eq!(resolved[0].0, "Color");
    assert_eq!(resolved[0].1, JsonValue::Text("Red".to_string()));
}

#[test]
fn picklist_list_value_resolves_element_wise() {
    let table = rich_table();
    let entity = vec![(
        "oa_c0lor_aaaa".to_string(),
        JsonValue::Array(vec![
            JsonValue::Text("opt-blue".to_string()),
            JsonValue::Text("opt-missing".to_string()),
        ]),
    )];
    let resolved = process_object_entity(&table, entity);
    assert_eq!(
        resolved[0].1,
        JsonValue::Array(vec![
            JsonValue::Text("Blue".to_string()),
            JsonValue::Text("not found".to_string()),
        ])
    );
}

#[test]
fn picklist_null_value_passes_through() {
    let table = rich_table();
    let entity = vec![("oa_c0lor_aaaa".to_string(), JsonValue::Null)];
    let resolved = process_object_entity(&table, entity);
    assert_eq!(resolved[0].1, JsonValue::Null);
}

#[test]
fn picklist_unmatched_value_yields_sentinel() {
    let table = rich_table();
    let entity = vec![(
        "oa_c0lor_aaaa".to_string(),
        JsonValue::Text("opt-missing".to_string()),
    )];
    let resolved = process_object_entity(&table, entity);
    assert_eq!(resolved[0].1, JsonValue::Text("not found".to_string()));
}

#[test]
fn unknown_attribute_passes_through_under_canonical_id() {
    let table = rich_table();
    let entity = vec![(
        "oa_0199_dead_beef".to_string(),
        JsonValue::Text("kept".to_string()),
    )];
    let resolved = process_object_entity(&table, entity);
    assert_eq!(resolved.len(), 1);
    assert_eq!(resolved[0].0, "0199-dead-beef");
    assert_eq!(resolved[0].1, JsonValue::Text("kept".to_string()));
}

#[test]
fn repeated_marker_is_stripped_entirely() {
    let table = rich_table();
    let entity = vec![("oa_oa_ab_cd".to_string(), JsonValue::Null)];
    let resolved = process_object_entity(&table, entity);
    assert_eq!(resolved[0].0, "ab-cd");
}

#[test]
fn entity_without_tagged_keys_resolves_empty() {
    let table = rich_table();
    let entity = vec![
        ("created_at".to_string(), JsonValue::Text("t".to_string())),
        ("status".to_string(), JsonValue::Bool(true)),
    ];
    let resolved = process_object_entity(&table, entity);
    assert!(resolved.is_empty());
}

#[test]
fn nested_form_resolves_embedded_records() {
    let table = rich_table();
    let sub_with_record = JsonValue::Object(vec![(
        "object_entity_attribute_values".to_string(),
        JsonValue::Object(vec![(
            "oa_title_bbbb".to_string(),
            JsonValue::Text("inner".to_string()),
        )]),
    )]);
    let sub_without_record =
        JsonValue::Object(vec![("note".to_string(), JsonValue::Null)]);
    let entity = vec![(
        "oa_form_cccc".to_string(),
        JsonValue::Object(vec![
            ("first".to_string(), sub_with_record),
            ("second".to_string(), sub_without_record),
        ]),
    )];
    let resolved = process_object_entity(&table, entity);
    assert_eq!(resolved[0].0, "Contacts");
    assert_eq!(
        resolved[0].1,
        JsonValue::Array(vec![
            JsonValue::Object(vec![(
                "Title".to_string(),
                JsonValue::Text("inner".to_string()),
            )]),
            JsonValue::Object(vec![]),
        ])
    );
}

#[test]
fn nested_form_null_passes_through() {
    let table = rich_table();
    let entity = vec![("oa_form_cccc".to_string(), JsonValue::Null)];
    let resolved = process_object_entity(&table, entity);
    assert_eq!(resolved[0].1, JsonValue::Null);
}

#[test]
fn loader_first_record_wins_on_duplicate_id() {
    let raw = ObjectAttributesRaw {
        data: vec![
            attribute_record("dup-1", "First", ObjectAttributeDataType::String, None),
            attribute_record("dup-1", "Second", ObjectAttributeDataType::String, None),
        ],
        included: vec![],
    };
    let table = preprocess_reference(raw);
    let payload = Payload {
        object_attribute_ids: Some(vec!["dup-1".to_string()]),
        search_query: None,
        object_entity_attribute_values: None,
    };
    let out = process_payload(&table, payload);
    assert_eq!(
        first_value(&out, "object_attributes"),
        &JsonValue::Array(vec![JsonValue::Text("First, dup-1".to_string())])
    );
}

#[test]
fn loader_missing_included_resource_yields_placeholder_option() {
    let raw = ObjectAttributesRaw {
        data: vec![attribute_record(
            "pick-1",
            "Status",
            ObjectAttributeDataType::Picklist,
            Some(vec!["opt-x"]),
        )],
        included: vec![],
    };
    let table = preprocess_reference(raw);
    let entity = vec![(
        "oa_pick_1".to_string(),
        JsonValue::Text("opt-x".to_string()),
    )];
    let resolved = process_object_entity(&table, entity);
    assert_eq!(resolved[0].1, JsonValue::Text("not_found".to_string()));
}

#[test]
fn payload_unknown_id_lists_not_found() {
    let table = rich_table();
    let payload = Payload {
        object_attribute_ids: Some(vec!["no-such-id".to_string()]),
        search_query: None,
        object_entity_attribute_values: None,
    };
    let out = process_payload(&table, payload);
    assert_eq!(
        first_value(&out, "object_attributes"),
        &JsonValue::Array(vec![JsonValue::Text("not_found, no-such-id".to_string())])
    );
}

#[test]
fn payload_without_parts_yields_empty_output() {
    let table = rich_table();
    let payload = Payload {
        object_attribute_ids: None,
        search_query: None,
        object_entity_attribute_values: None,
    };
    let out = process_payload(&table, payload);
    assert!(out.is_empty());
}

#[test]
fn payload_embedded_entity_is_resolved() {
    let table = rich_table();
    let payload = Payload {
        object_attribute_ids: None,
        search_query: None,
        object_entity_attribute_values: Some(vec![(
            "oa_title_bbbb".to_string(),
            JsonValue::Text("x".to_string()),
        )]),
    };
    let out = process_payload(&table, payload);
    assert_eq!(out.len(), 1);
    assert_eq!(
        first_value(&out, "object_entity_attribute_values"),
        &JsonValue::Object(vec![(
            "Title".to_string(),
            JsonValue::Text("x".to_string()),
        )])
    );
}

fn condition(
    operator: SearchQueryConditionOperator,
    id: &str,
    value: Option<JsonValue>,
) -> SearchQueryCondition {
    SearchQueryCondition {
        operator,
        object_attribute_id: id.to_string(),
        value,
    }
}

fn single_group(conditions: Vec<SearchQueryCondition>) -> SearchQuery {
    SearchQuery {
        search_query_groups: vec![SearchQueryGroup {
            operator: SearchQueryGroupOperator::And,
            search_query_conditions: Some(conditions),
            children: None,
        }],
    }
}

#[test]
fn query_picklist_value_substitutes_label() {
    let table = rich_table();
    let query = single_group(vec![condition(
        SearchQueryConditionOperator::Equal,
        "c0lor-aaaa",
        Some(JsonValue::Text("opt-blue".to_string())),
    )]);
    let expr = parse_search_query(&query, &table);
    assert_eq!(expr, "(AND (equal Color \"Blue\"))");
}

#[test]
fn query_picklist_list_value_substitutes_element_wise() {
    let table = rich_table();
    let query = single_group(vec![condition(
        SearchQueryConditionOperator::AnyOf,
        "c0lor-aaaa",
        Some(JsonValue::Array(vec![
            JsonValue::Text("opt-red".to_string()),
            JsonValue::Text("opt-missing".to_string()),
        ])),
    )]);
    let expr = parse_search_query(&query, &table);
    assert_eq!(
        expr,
        "(AND (any_of Color [\"Red\",\"not_found_picklist_label\"]))"
    );
}

#[test]
fn query_picklist_odd_value_renders_placeholder() {
    let table = rich_table();
    let query = single_group(vec![condition(
        SearchQueryConditionOperator::Equal,
        "c0lor-aaaa",
        Some(JsonValue::Number("7".to_string())),
    )]);
    let expr = parse_search_query(&query, &table);
    assert_eq!(
        expr,
        "(AND (equal Color \"picklist value is {option_id_value:#?}, which is not implemented yet.\"))"
    );
}

#[test]
fn query_condition_without_value_renders_name_only() {
    let table = rich_table();
    let query = single_group(vec![condition(
        SearchQueryConditionOperator::IsPresent,
        "title-bbbb",
        None,
    )]);
    let expr = parse_search_query(&query, &table);
    assert_eq!(expr, "(AND (is_present Title))");
}

#[test]
fn query_unknown_attribute_renders_not_found() {
    let table = rich_table();
    let query = single_group(vec![condition(
        SearchQueryConditionOperator::Equal,
        "no-such-id",
        Some(JsonValue::Text("v".to_string())),
    )]);
    let expr = parse_search_query(&query, &table);
    assert_eq!(expr, "(AND (equal not_found \"v\"))");
}

#[test]
fn query_nested_groups_render_in_prefix_form() {
    let table = rich_table();
    let inner = SearchQueryGroup {
        operator: SearchQueryGroupOperator::Not,
        search_query_conditions: Some(vec![condition(
            SearchQueryConditionOperator::IsBlank,
            "title-bbbb",
            None,
        )]),
        children: None,
    };
    let query = SearchQuery {
        search_query_groups: vec![SearchQueryGroup {
            operator: SearchQueryGroupOperator::Or,
            search_query_conditions: Some(vec![
                condition(
                    SearchQueryConditionOperator::Greater,
                    "title-bbbb",
                    Some(JsonValue::Number("3".to_string())),
                ),
                condition(SearchQueryConditionOperator::IsTrue, "title-bbbb", None),
            ]),
            children: Some(vec![inner]),
        }],
    };
    let expr = parse_search_query(&query, &table);
    assert_eq!(
        expr,
        "(OR (greater_than Title 3) (is_true Title) (NOT (is_blank Title)))"
    );
}

#[test]
fn query_string_value_is_escaped_when_rendered() {
    let table = rich_table();
    let query = single_group(vec![condition(
        SearchQueryConditionOperator::Contain,
        "title-bbbb",
        Some(JsonValue::Text("a\"b\\c\nd".to_string())),
    )]);
    let expr = parse_search_query(&query, &table);
    assert_eq!(expr, "(AND (contain Title \"a\\\"b\\\\c\\nd\"))");
}

#[test]
fn response_keeps_record_order() {
    let table = rich_table();
    let response = Response {
        data: vec![
            ObjectEntity {
                attributes: vec![(
                    "oa_title_bbbb".to_string(),
                    JsonValue::Text("one".to_string()),
                )],
            },
            ObjectEntity {
                attributes: vec![(
                    "oa_title_bbbb".to_string(),
                    JsonValue::Text("two".to_string()),
                )],
            },
        ],
    };
    let out = process_response(&table, response);
    assert_eq!(out[0][0].1, JsonValue::Text("one".to_string()));
    assert_eq!(out[1][0].1, JsonValue::Text("two".to_string()));
}

#[test]
fn resolution_is_not_idempotent() {
    // Resolved entities are keyed by display name, not identifier, so a
    // second pass finds no reference-tagged key and yields the empty
    // entity rather than the same output again.
    let table = rich_table();
    let entity = vec![(
        "oa_title_bbbb".to_string(),
        JsonValue::Text("once".to_string()),
    )];
    let resolved = process_object_entity(&table, entity);
    assert_eq!(resolved.len(), 1);
    let resolved_again = process_object_entity(&table, resolved);
    assert!(resolved_again.is_empty());
}

#[test]
fn data_type_tokens_match_wire_names() {
    assert_eq!(ObjectAttributeDataType::Richtextarea.token(), "rich_textarea");
    assert_eq!(
        ObjectAttributeDataType::EncryptedString.token(),
        "encrypted_string"
    );
    assert_eq!(ObjectAttributeDataType::Picklist.token(), "picklist");
}
