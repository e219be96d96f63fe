use vstd::prelude::*;

use crate::attribute::{ReferenceTable, SpecTable, spec_table_get};
use crate::entity::{convert_raw_entity, spec_resolve_entity};
use crate::query::{SearchQuery, SearchQueryGroup, SpecGroup, parse_search_query, spec_query_expr};
use crate::value::{JsonValue, SpecValue, push_char};

verus! {

/// A request payload: any combination of an attribute identifier list, a
/// search query and an embedded entity. Absent parts are simply left out
/// of the output.
pub struct Payload {
    pub object_attribute_ids: Option<Vec<String>>,
    pub search_query: Option<SearchQuery>,
    pub object_entity_attribute_values: Option<Vec<(String, JsonValue)>>,
}

/// Ghost model of a payload.
pub struct SpecPayload {
    pub ids: Option<Seq<Seq<char>>>,
    pub query: Option<Seq<SpecGroup>>,
    pub entity: Option<Seq<(Seq<char>, SpecValue)>>,
}

impl Payload {
    pub open spec fn deep(self) -> SpecPayload {
        SpecPayload {
            ids: match self.object_attribute_ids {
                Some(ids) => Some(ids@.map_values(|id: String| id@)),
                None => None,
            },
            query: match self.search_query {
                Some(q) => Some(SearchQueryGroup::deep_groups(q.search_query_groups@)),
                None => None,
            },
            entity: match self.object_entity_attribute_values {
                Some(e) => Some(JsonValue::deep_fields(e@)),
                None => None,
            },
        }
    }
}

/// The line a requested attribute identifier resolves to: the display
/// name (or `not_found`), a comma and a space, then the identifier.
pub open spec fn spec_attr_list_entry(table: SpecTable, id: Seq<char>) -> Seq<char> {
    (match spec_table_get(table, id) {
        Some(oa) => oa.name,
        None => "not_found"@,
    }) + seq![',', ' '] + id
}

/// The output map of a processed payload: one entry per present part, in
/// a fixed order.
pub open spec fn spec_payload_output(p: SpecPayload, table: SpecTable)
    -> Seq<(Seq<char>, SpecValue)>
{
    (match p.ids {
        Some(ids) => seq![("object_attributes"@, SpecValue::Array(
            ids.map_values(|id: Seq<char>| SpecValue::Text(spec_attr_list_entry(table, id))),
        ))],
        None => Seq::empty(),
    }) + (match p.query {
        Some(gs) => seq![("search_query"@, SpecValue::Text(spec_query_expr(gs, table)))],
        None => Seq::empty(),
    }) + (match p.entity {
        Some(fields) => seq![("object_entity_attribute_values"@, SpecValue::Object(
            spec_resolve_entity(fields, table),
        ))],
        None => Seq::empty(),
    })
}

/// Resolves one requested identifier to its display line.
fn attr_list_entry(table: &ReferenceTable, id: &String) -> (r: String)
    ensures
        r@ == spec_attr_list_entry(table.deep(), id@),
{
    let mut out: String;
    match table.get(id.as_str()) {
        Some(oa) => {
            out = oa.name.clone();
        },
        None => {
            out = "not_found".to_owned();
        },
    }
    push_char(&mut out, ',');
    push_char(&mut out, ' ');
    out.append(id.as_str());
    out
}

/// Processes a payload against the table: requested identifiers become
/// `name, id` lines, the search query becomes its rendered expression,
/// and the embedded entity is resolved; each present part yields one
/// entry of the output map.
pub fn parse(payload: Payload, table: &ReferenceTable) -> (r: Vec<(String, JsonValue)>)
    ensures
        JsonValue::deep_fields(r@) == spec_payload_output(payload.deep(), table.deep()),
{
    let ghost p = payload.deep();
    let ghost tdeep = table.deep();
    let mut out: Vec<(String, JsonValue)> = Vec::new();
    match &payload.object_attribute_ids {
        Some(ids) => {
            let ghost ideep = ids@.map_values(|id: String| id@);
            let mut lines: Vec<JsonValue> = Vec::new();
            let mut i: usize = 0;
            while i < ids.len()
                invariant
                    i <= ids.len(),
                    ideep == ids@.map_values(|id: String| id@),
                    lines@.len() == i as nat,
                    forall|j: int| 0 <= j < i ==> lines@[j].deep()
                        == SpecValue::Text(spec_attr_list_entry(tdeep, ideep[j])),
                decreases ids.len() - i,
            {
                let line = attr_list_entry(table, &ids[i]);
                lines.push(JsonValue::Text(line));
                i = i + 1;
            }
            proof {
                crate::value::lemma_deep_seq(lines@);
                assert(JsonValue::deep_seq(lines@) =~= ideep.map_values(
                    |id: Seq<char>| SpecValue::Text(spec_attr_list_entry(tdeep, id)),
                ));
            }
            out.push(("object_attributes".to_owned(), JsonValue::Array(lines)));
        },
        None => {},
    }
    match &payload.search_query {
        Some(q) => {
            let expr = parse_search_query(q, table);
            out.push(("search_query".to_owned(), JsonValue::Text(expr)));
        },
        None => {},
    }
    match &payload.object_entity_attribute_values {
        Some(e) => {
            let resolved = convert_raw_entity(e, table);
            out.push((
                "object_entity_attribute_values".to_owned(),
                JsonValue::Object(resolved),
            ));
        },
        None => {},
    }
    proof {
        crate::value::lemma_deep_fields(out@);
        assert(JsonValue::deep_fields(out@) =~= spec_payload_output(p, tdeep));
    }
    out
}

} // verus!
