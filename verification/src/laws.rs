use vstd::prelude::*;

use crate::attribute::{
    SpecPicklistOption, SpecTable, lemma_option_label_at, lemma_option_label_none,
    spec_option_label, spec_table_get,
};
use crate::entity::{spec_picklist_label_entity, spec_resolve_entity, spec_resolve_known};
use crate::query::{SpecCondition, spec_condition_resolved, spec_query_option_item};
use crate::text::{spec_canon_id, spec_is_tagged};
use crate::value::SpecValue;

verus! {

/// For every attribute identifier present in the reference table,
/// resolving an entity that carries that identifier under a
/// reference-tagged key yields an output entry keyed by the attribute's
/// display name, exactly as registered, holding the value resolved for
/// the attribute's data type.
pub proof fn lemma_known_attribute_resolves_to_name(
    fields: Seq<(Seq<char>, SpecValue)>,
    table: SpecTable,
    i: int,
)
    requires
        0 <= i < fields.len(),
        spec_is_tagged(fields[i].0),
        spec_table_get(table, spec_canon_id(fields[i].0)) is Some,
    ensures
        exists|j: int| #![auto] 0 <= j < spec_resolve_entity(fields, table).len()
            && spec_resolve_entity(fields, table)[j] == (
                spec_table_get(table, spec_canon_id(fields[i].0))->Some_0.name,
                spec_resolve_known(
                    spec_table_get(table, spec_canon_id(fields[i].0))->Some_0,
                    fields[i].1,
                    table,
                ),
            ),
    decreases fields.len(),
{
    let out = spec_resolve_entity(fields, table);
    let prev = spec_resolve_entity(fields.drop_last(), table);
    if i == fields.len() - 1 {
        assert(fields.last() == fields[i]);
        assert(out[prev.len() as int] == (
            spec_table_get(table, spec_canon_id(fields[i].0))->Some_0.name,
            spec_resolve_known(
                spec_table_get(table, spec_canon_id(fields[i].0))->Some_0,
                fields[i].1,
                table,
            ),
        ));
    } else {
        assert(fields.drop_last()[i] == fields[i]);
        lemma_known_attribute_resolves_to_name(fields.drop_last(), table, i);
        let j = choose|j: int| #![auto] 0 <= j < prev.len() && prev[j] == (
            spec_table_get(table, spec_canon_id(fields[i].0))->Some_0.name,
            spec_resolve_known(
                spec_table_get(table, spec_canon_id(fields[i].0))->Some_0,
                fields[i].1,
                table,
            ),
        );
        assert(out[j] == prev[j]);
    }
}

/// For every picklist attribute, a condition or entity value whose
/// identifier matches a picklist option resolves to that option's name:
/// the first matching option wins, both on the query path and on the
/// entity path.
pub proof fn lemma_picklist_option_resolves(options: Seq<SpecPicklistOption>, i: int)
    requires
        0 <= i < options.len(),
        forall|j: int| 0 <= j < i ==> options[j].id != options[i].id,
    ensures
        spec_option_label(options, options[i].id) == Some(options[i].name),
        spec_query_option_item(options, SpecValue::Text(options[i].id))
            == SpecValue::Text(options[i].name),
        spec_picklist_label_entity(options, SpecValue::Text(options[i].id))
            == SpecValue::Text(options[i].name),
{
    lemma_option_label_at(options, options[i].id, i);
}

/// For every identifier that matches no picklist option, substitution
/// yields the literal sentinel: `not_found_picklist_label` on the query
/// path and `not found` on the entity path.
pub proof fn lemma_picklist_option_missing(options: Seq<SpecPicklistOption>, id: Seq<char>)
    requires
        forall|j: int| 0 <= j < options.len() ==> options[j].id != id,
    ensures
        spec_option_label(options, id) == None::<Seq<char>>,
        spec_query_option_item(options, SpecValue::Text(id))
            == SpecValue::Text("not_found_picklist_label"@),
        spec_picklist_label_entity(options, SpecValue::Text(id))
            == SpecValue::Text("not found"@),
{
    lemma_option_label_none(options, id);
}

/// For every reference-tagged key whose canonical identifier is unknown
/// to the table, entity resolution passes the key and value through as
/// sentinel output — the key in canonical form, the value unchanged —
/// rather than failing.
pub proof fn lemma_unknown_attribute_passthrough(
    fields: Seq<(Seq<char>, SpecValue)>,
    table: SpecTable,
    i: int,
)
    requires
        0 <= i < fields.len(),
        spec_is_tagged(fields[i].0),
        spec_table_get(table, spec_canon_id(fields[i].0)) is None,
    ensures
        exists|j: int| #![auto] 0 <= j < spec_resolve_entity(fields, table).len()
            && spec_resolve_entity(fields, table)[j]
                == (spec_canon_id(fields[i].0), fields[i].1),
    decreases fields.len(),
{
    let out = spec_resolve_entity(fields, table);
    let prev = spec_resolve_entity(fields.drop_last(), table);
    if i == fields.len() - 1 {
        assert(fields.last() == fields[i]);
        assert(out[prev.len() as int] == (spec_canon_id(fields[i].0), fields[i].1));
    } else {
        assert(fields.drop_last()[i] == fields[i]);
        lemma_unknown_attribute_passthrough(fields.drop_last(), table, i);
        let j = choose|j: int| #![auto] 0 <= j < prev.len()
            && prev[j] == (spec_canon_id(fields[i].0), fields[i].1);
        assert(out[j] == prev[j]);
    }
}

/// A condition on an attribute identifier unknown to the table renders
/// under the sentinel name `not_found`, its value untouched, rather than
/// failing.
pub proof fn lemma_unknown_condition_renders_not_found(c: SpecCondition, table: SpecTable)
    requires
        spec_table_get(table, c.attribute_id) is None,
    ensures
        spec_condition_resolved(c, table).0 == "not_found"@,
        spec_condition_resolved(c, table).1 == c.value,
{
}

/// An entity with no reference-tagged key resolves to the empty entity:
/// keys without the marker never leak into the output.
pub proof fn lemma_untagged_entity_resolves_empty(
    fields: Seq<(Seq<char>, SpecValue)>,
    table: SpecTable,
)
    requires
        forall|i: int| 0 <= i < fields.len() ==> !spec_is_tagged(#[trigger] fields[i].0),
    ensures
        spec_resolve_entity(fields, table) == Seq::<(Seq<char>, SpecValue)>::empty(),
    decreases fields.len(),
{
    if fields.len() > 0 {
        assert(forall|i: int| 0 <= i < fields.len() - 1
            ==> !spec_is_tagged(#[trigger] fields.drop_last()[i].0));
        lemma_untagged_entity_resolves_empty(fields.drop_last(), table);
    }
}

/// Entity resolution keeps exactly the reference-tagged keys: the output
/// has one entry per tagged key of the input, in order, however many
/// untagged keys stood beside them.
pub proof fn lemma_resolved_length_counts_tagged(
    fields: Seq<(Seq<char>, SpecValue)>,
    table: SpecTable,
)
    ensures
        spec_resolve_entity(fields, table).len()
            == fields.filter(|f: (Seq<char>, SpecValue)| spec_is_tagged(f.0)).len(),
    decreases fields.len(),
{
    reveal(Seq::filter);
    if fields.len() > 0 {
        lemma_resolved_length_counts_tagged(fields.drop_last(), table);
    }
}

} // verus!
