//! Resolves opaque attribute identifiers embedded in JSON documents into
//! human-readable names and values, against a reference dictionary loaded
//! once per run, and translates structured boolean search queries into
//! compact s-expression strings.
//!
//! The reference loader builds a flat identifier-to-attribute table from a
//! raw reference document. The attribute resolver walks an arbitrary JSON
//! object, rewrites reference-tagged keys to display names, and resolves
//! values by the attribute's data type: picklist option identifiers become
//! option labels, nested-form sub-records are resolved recursively, and
//! everything else passes through unchanged. Lookup misses never abort a
//! run; they degrade to deterministic sentinel outputs. Every function is
//! specified against a ghost model of the JSON document and proved to
//! match it.
#![verifier::loop_isolation(false)]
pub mod attribute;
pub mod entity;
pub mod laws;
pub mod payload;
pub mod query;
pub mod reference;
pub mod render;
pub mod response;
pub mod text;
pub mod value;

pub use attribute::ObjectAttribute;
pub use attribute::ObjectAttributeDataType;
pub use attribute::PicklistOption;
pub use attribute::ReferenceTable;
pub use payload::Payload;
pub use query::SearchQuery;
pub use query::SearchQueryCondition;
pub use query::SearchQueryConditionOperator;
pub use query::SearchQueryGroup;
pub use query::SearchQueryGroupOperator;
pub use reference::ObjectAttributesRaw;
pub use response::ObjectEntity;
pub use response::Response;
pub use value::JsonValue;
pub use value::SpecValue;

use vstd::prelude::*;

use entity::spec_resolve_entity;
use payload::spec_payload_output;
use reference::spec_load;

verus! {

/// Builds the flat attribute lookup table from the raw reference
/// document.
pub fn preprocess_reference(reference: ObjectAttributesRaw) -> (r: ReferenceTable)
    ensures
        r.deep() == spec_load(reference.deep_data(), reference.deep_included()),
{
    reference::parse(reference)
}

/// Processes a payload against the table: one output entry per present
/// part of the payload.
pub fn process_payload(
    oa_id_table: &ReferenceTable,
    payload: Payload,
) -> (r: Vec<(String, JsonValue)>)
    ensures
        JsonValue::deep_fields(r@) == spec_payload_output(payload.deep(), oa_id_table.deep()),
{
    payload::parse(payload, oa_id_table)
}

/// Resolves every record of a response envelope, order preserved.
pub fn process_response(
    oa_id_table: &ReferenceTable,
    response: Response,
) -> (r: Vec<Vec<(String, JsonValue)>>)
    ensures
        r@.len() == response.data@.len(),
        forall|i: int| 0 <= i < r@.len() ==> JsonValue::deep_fields(r@[i]@)
            == spec_resolve_entity(
                JsonValue::deep_fields(response.data@[i].attributes@), oa_id_table.deep()),
{
    response::parse(response, oa_id_table)
}

/// Resolves a single raw entity record.
pub fn process_object_entity(
    oa_id_table: &ReferenceTable,
    entity: Vec<(String, JsonValue)>,
) -> (r: Vec<(String, JsonValue)>)
    ensures
        JsonValue::deep_fields(r@) == spec_resolve_entity(
            JsonValue::deep_fields(entity@), oa_id_table.deep()),
{
    entity::convert_raw_entity(&entity, oa_id_table)
}

} // verus!
