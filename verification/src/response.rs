use vstd::prelude::*;

use crate::attribute::ReferenceTable;
use crate::entity::{convert_raw_entity, spec_resolve_entity};
use crate::value::JsonValue;

verus! {

/// One record of a response envelope: the entity's raw attribute map.
pub struct ObjectEntity {
    pub attributes: Vec<(String, JsonValue)>,
}

/// A response envelope: a list of entity records.
pub struct Response {
    pub data: Vec<ObjectEntity>,
}

/// Resolves every record of a response envelope, order preserved.
pub fn parse(response: Response, table: &ReferenceTable) -> (r: Vec<Vec<(String, JsonValue)>>)
    ensures
        r@.len() == response.data@.len(),
        forall|i: int| 0 <= i < r@.len() ==> JsonValue::deep_fields(r@[i]@)
            == spec_resolve_entity(
                JsonValue::deep_fields(response.data@[i].attributes@), table.deep()),
{
    let mut out: Vec<Vec<(String, JsonValue)>> = Vec::new();
    let mut i: usize = 0;
    while i < response.data.len()
        invariant
            i <= response.data.len(),
            out@.len() == i as nat,
            forall|j: int| 0 <= j < i ==> JsonValue::deep_fields(out@[j]@)
                == spec_resolve_entity(
                    JsonValue::deep_fields(response.data@[j].attributes@), table.deep()),
        decreases response.data.len() - i,
    {
        let resolved = convert_raw_entity(&response.data[i].attributes, table);
        out.push(resolved);
        i = i + 1;
    }
    out
}

} // verus!
