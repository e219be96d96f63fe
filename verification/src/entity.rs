use vstd::prelude::*;

use crate::attribute::{
    ObjectAttribute, ObjectAttributeDataType, PicklistOption, ReferenceTable, SpecObjectAttribute,
    SpecPicklistOption, SpecTable, find_option_label, spec_option_label, spec_table_get,
};
use crate::text::{canon_id, is_tagged, spec_canon_id, spec_is_tagged, str_eq};
use crate::value::{JsonValue, SpecValue, duplicate_value, lemma_deep_fields, lemma_deep_seq};

verus! {

/// The label a raw picklist value resolves to: the matching option's name,
/// and the sentinel `not found` when no option matches or the value is not
/// a single identifier.
pub open spec fn spec_picklist_label_entity(options: Seq<SpecPicklistOption>, v: SpecValue)
    -> SpecValue
{
    match v {
        SpecValue::Text(id) => match spec_option_label(options, id) {
            Some(name) => SpecValue::Text(name),
            None => SpecValue::Text("not found"@),
        },
        _ => SpecValue::Text("not found"@),
    }
}

/// How a picklist attribute's raw value resolves: null passes through, a
/// list is substituted element by element, and anything else is treated as
/// a single option identifier.
pub open spec fn spec_resolve_picklist(options: Seq<SpecPicklistOption>, v: SpecValue)
    -> SpecValue
{
    match v {
        SpecValue::Null => SpecValue::Null,
        SpecValue::Array(items) => SpecValue::Array(
            items.map_values(|it: SpecValue| spec_picklist_label_entity(options, it)),
        ),
        _ => spec_picklist_label_entity(options, v),
    }
}

/// The resolved form of one entity: reference-tagged keys are rewritten to
/// the attribute's display name and their values resolved by data type;
/// tagged keys with no table entry pass through under their canonical
/// identifier; untagged keys are dropped.
pub open spec fn spec_resolve_entity(
    fields: Seq<(Seq<char>, SpecValue)>,
    table: SpecTable,
) -> Seq<(Seq<char>, SpecValue)>
    decreases fields,
{
    if fields.len() == 0 {
        Seq::empty()
    } else {
        let prev = spec_resolve_entity(fields.drop_last(), table);
        let f = fields.last();
        if !spec_is_tagged(f.0) {
            prev
        } else {
            let id = spec_canon_id(f.0);
            match spec_table_get(table, id) {
                Some(oa) => prev.push((oa.name, spec_resolve_known(oa, f.1, table))),
                None => prev.push((id, f.1)),
            }
        }
    }
}

/// The resolved value of an attribute found in the table: picklist values
/// are substituted by option labels, nested forms are recursively resolved
/// to a list of embedded records, and every other data type passes the
/// value through unchanged.
pub open spec fn spec_resolve_known(oa: SpecObjectAttribute, v: SpecValue, table: SpecTable)
    -> SpecValue
    decreases v,
{
    if oa.data_type == ObjectAttributeDataType::Picklist {
        spec_resolve_picklist(oa.picklist_options, v)
    } else if oa.data_type == ObjectAttributeDataType::NestedForm {
        match v {
            SpecValue::Null => v,
            SpecValue::Object(subs) => SpecValue::Array(spec_resolve_subrecords(subs, table)),
            _ => v,
        }
    } else {
        v
    }
}

/// The resolved embedded records of a nested form, one per sub-payload, in
/// field order.
pub open spec fn spec_resolve_subrecords(
    subs: Seq<(Seq<char>, SpecValue)>,
    table: SpecTable,
) -> Seq<SpecValue>
    decreases subs,
{
    if subs.len() == 0 {
        Seq::empty()
    } else {
        spec_resolve_subrecords(subs.drop_last(), table)
            .push(SpecValue::Object(spec_resolve_subrecord(subs.last().1, table)))
    }
}

/// The resolved record of one sub-payload: its embedded entity resolved
/// through the table, and an empty record when the sub-payload is not an
/// object.
pub open spec fn spec_resolve_subrecord(p: SpecValue, table: SpecTable)
    -> Seq<(Seq<char>, SpecValue)>
    decreases p,
{
    match p {
        SpecValue::Object(pf) => spec_resolve_embedded(pf, table),
        _ => Seq::empty(),
    }
}

/// The resolved form of the embedded entity a sub-payload carries under
/// `object_entity_attribute_values`; an empty record when the field is
/// missing or not an object.
pub open spec fn spec_resolve_embedded(
    pf: Seq<(Seq<char>, SpecValue)>,
    table: SpecTable,
) -> Seq<(Seq<char>, SpecValue)>
    decreases pf,
{
    if pf.len() == 0 {
        Seq::empty()
    } else if pf[0].0 == "object_entity_attribute_values"@ {
        match pf[0].1 {
            SpecValue::Object(ef) => spec_resolve_entity(ef, table),
            _ => Seq::empty(),
        }
    } else {
        spec_resolve_embedded(pf.drop_first(), table)
    }
}

/// Substitutes a single raw picklist value by its option label.
fn picklist_label_entity(options: &Vec<PicklistOption>, v: &JsonValue) -> (r: JsonValue)
    ensures
        r.deep() == spec_picklist_label_entity(
            options@.map_values(|o: PicklistOption| o.deep()), v.deep()),
{
    match v {
        JsonValue::Text(id) => match find_option_label(options, id.as_str()) {
            Some(name) => JsonValue::Text(name),
            None => JsonValue::Text("not found".to_owned()),
        },
        _ => JsonValue::Text("not found".to_owned()),
    }
}

/// Resolves the raw value of a picklist attribute.
fn resolve_picklist(options: &Vec<PicklistOption>, v: &JsonValue) -> (r: JsonValue)
    ensures
        r.deep() == spec_resolve_picklist(
            options@.map_values(|o: PicklistOption| o.deep()), v.deep()),
{
    let ghost opts = options@.map_values(|o: PicklistOption| o.deep());
    match v {
        JsonValue::Null => JsonValue::Null,
        JsonValue::Array(items) => {
            let ghost ideep = JsonValue::deep_seq(items@);
            proof {
                lemma_deep_seq(items@);
            }
            let mut out: Vec<JsonValue> = Vec::new();
            let mut i: usize = 0;
            while i < items.len()
                invariant
                    i <= items.len(),
                    out@.len() == i as nat,
                    forall|j: int| 0 <= j < i ==> out@[j].deep()
                        == spec_picklist_label_entity(opts, ideep[j]),
                decreases items.len() - i,
            {
                let e = picklist_label_entity(options, &items[i]);
                out.push(e);
                i = i + 1;
            }
            proof {
                lemma_deep_seq(out@);
                assert(JsonValue::deep_seq(out@)
                    =~= ideep.map_values(|it: SpecValue| spec_picklist_label_entity(opts, it)));
            }
            JsonValue::Array(out)
        },
        _ => picklist_label_entity(options, v),
    }
}

proof fn lemma_resolve_entity_step(
    fields: Seq<(Seq<char>, SpecValue)>,
    table: SpecTable,
    i: int,
)
    requires
        0 <= i < fields.len(),
    ensures
        spec_resolve_entity(fields.take(i + 1), table) == ({
            let prev = spec_resolve_entity(fields.take(i), table);
            let f = fields[i];
            if !spec_is_tagged(f.0) {
                prev
            } else {
                let id = spec_canon_id(f.0);
                match spec_table_get(table, id) {
                    Some(oa) => prev.push((oa.name, spec_resolve_known(oa, f.1, table))),
                    None => prev.push((id, f.1)),
                }
            }
        }),
{
    assert(fields.take(i + 1).drop_last() =~= fields.take(i));
    assert(fields.take(i + 1).last() == fields[i]);
}

proof fn lemma_resolve_subrecords_step(
    subs: Seq<(Seq<char>, SpecValue)>,
    table: SpecTable,
    i: int,
)
    requires
        0 <= i < subs.len(),
    ensures
        spec_resolve_subrecords(subs.take(i + 1), table)
            == spec_resolve_subrecords(subs.take(i), table)
                .push(SpecValue::Object(spec_resolve_subrecord(subs[i].1, table))),
{
    assert(subs.take(i + 1).drop_last() =~= subs.take(i));
    assert(subs.take(i + 1).last() == subs[i]);
}

proof fn lemma_resolve_embedded_at(
    pf: Seq<(Seq<char>, SpecValue)>,
    table: SpecTable,
    j: int,
)
    requires
        0 <= j < pf.len(),
        forall|k: int| 0 <= k < j ==> pf[k].0 != "object_entity_attribute_values"@,
        pf[j].0 == "object_entity_attribute_values"@,
    ensures
        spec_resolve_embedded(pf, table) == (match pf[j].1 {
            SpecValue::Object(ef) => spec_resolve_entity(ef, table),
            _ => Seq::<(Seq<char>, SpecValue)>::empty(),
        }),
    decreases j,
{
    if j > 0 {
        assert(pf.drop_first()[j - 1] == pf[j]);
        assert(forall|k: int| 0 <= k < j - 1 ==> pf.drop_first()[k] == pf[k + 1]);
        lemma_resolve_embedded_at(pf.drop_first(), table, j - 1);
    }
}

proof fn lemma_resolve_embedded_none(pf: Seq<(Seq<char>, SpecValue)>, table: SpecTable)
    requires
        forall|k: int| 0 <= k < pf.len() ==> pf[k].0 != "object_entity_attribute_values"@,
    ensures
        spec_resolve_embedded(pf, table) == Seq::<(Seq<char>, SpecValue)>::empty(),
    decreases pf.len(),
{
    if pf.len() > 0 {
        assert(forall|k: int| 0 <= k < pf.len() - 1 ==> pf.drop_first()[k] == pf[k + 1]);
        lemma_resolve_embedded_none(pf.drop_first(), table);
    }
}

/// Resolves every reference-tagged key of a raw entity against the table,
/// dropping untagged keys.
pub fn convert_raw_entity(
    entity: &Vec<(String, JsonValue)>,
    table: &ReferenceTable,
) -> (r: Vec<(String, JsonValue)>)
    ensures
        JsonValue::deep_fields(r@)
            == spec_resolve_entity(JsonValue::deep_fields(entity@), table.deep()),
    decreases entity@,
{
    let ghost fields = JsonValue::deep_fields(entity@);
    let ghost tdeep = table.deep();
    proof {
        lemma_deep_fields(entity@);
    }
    let mut out: Vec<(String, JsonValue)> = Vec::new();
    let mut i: usize = 0;
    while i < entity.len()
        invariant
            i <= entity.len(),
            JsonValue::deep_fields(out@) == spec_resolve_entity(fields.take(i as int), tdeep),
        decreases entity.len() - i,
    {
        let ghost prev_out = out@;
        let f = &entity[i];
        if is_tagged(f.0.as_str()) {
            let id = canon_id(f.0.as_str());
            match table.get(id.as_str()) {
                Some(oa) => {
                    proof {
                        assert(decreases_to!(entity@ => entity@[i as int]));
                        assert(decreases_to!(entity@[i as int] => entity@[i as int].1));
                    }
                    let name = oa.name.clone();
                    let value = process_entity_attribute(oa, &f.1, table);
                    out.push((name, value));
                    proof {
                        lemma_deep_fields(out@);
                        lemma_deep_fields(prev_out);
                        assert(JsonValue::deep_fields(out@)
                            =~= JsonValue::deep_fields(prev_out)
                                .push((oa.deep().name,
                                    spec_resolve_known(oa.deep(), fields[i as int].1, tdeep))));
                    }
                },
                None => {
                    let value = duplicate_value(&f.1);
                    out.push((id, value));
                    proof {
                        lemma_deep_fields(out@);
                        lemma_deep_fields(prev_out);
                        assert(JsonValue::deep_fields(out@)
                            =~= JsonValue::deep_fields(prev_out)
                                .push((spec_canon_id(fields[i as int].0),
                                    fields[i as int].1)));
                    }
                },
            }
        }
        proof {
            lemma_resolve_entity_step(fields, tdeep, i as int);
        }
        i = i + 1;
    }
    proof {
        assert(fields.take(entity@.len() as int) =~= fields);
    }
    out
}

/// Resolves the raw value of one attribute found in the table, according
/// to its data type.
pub fn process_entity_attribute(
    oa: &ObjectAttribute,
    v: &JsonValue,
    table: &ReferenceTable,
) -> (r: JsonValue)
    ensures
        r.deep() == spec_resolve_known(oa.deep(), v.deep(), table.deep()),
    decreases *v,
{
    if oa.data_type == ObjectAttributeDataType::Picklist {
        resolve_picklist(&oa.picklist_options, v)
    } else if oa.data_type == ObjectAttributeDataType::NestedForm {
        match v {
            JsonValue::Null => JsonValue::Null,
            JsonValue::Object(subs) => {
                proof {
                    assert(decreases_to!(*v => *subs));
                    assert(decreases_to!(*subs => subs@));
                }
                JsonValue::Array(resolve_subrecords(subs, table))
            },
            _ => duplicate_value(v),
        }
    } else {
        duplicate_value(v)
    }
}

/// Resolves each sub-payload of a nested form to one embedded record.
fn resolve_subrecords(
    subs: &Vec<(String, JsonValue)>,
    table: &ReferenceTable,
) -> (r: Vec<JsonValue>)
    ensures
        JsonValue::deep_seq(r@)
            == spec_resolve_subrecords(JsonValue::deep_fields(subs@), table.deep()),
    decreases subs@,
{
    let ghost sdeep = JsonValue::deep_fields(subs@);
    let ghost tdeep = table.deep();
    proof {
        lemma_deep_fields(subs@);
    }
    let mut out: Vec<JsonValue> = Vec::new();
    let mut i: usize = 0;
    while i < subs.len()
        invariant
            i <= subs.len(),
            JsonValue::deep_seq(out@) == spec_resolve_subrecords(sdeep.take(i as int), tdeep),
        decreases subs.len() - i,
    {
        let ghost prev_out = out@;
        proof {
            assert(decreases_to!(subs@ => subs@[i as int]));
            assert(decreases_to!(subs@[i as int] => subs@[i as int].1));
        }
        let record = resolve_subrecord(&subs[i].1, table);
        out.push(JsonValue::Object(record));
        proof {
            lemma_deep_seq(out@);
            lemma_deep_seq(prev_out);
            assert(JsonValue::deep_seq(out@)
                =~= JsonValue::deep_seq(prev_out)
                    .push(SpecValue::Object(spec_resolve_subrecord(sdeep[i as int].1, tdeep))));
            lemma_resolve_subrecords_step(sdeep, tdeep, i as int);
        }
        i = i + 1;
    }
    proof {
        assert(sdeep.take(subs@.len() as int) =~= sdeep);
    }
    out
}

/// Resolves one sub-payload to its embedded record.
fn resolve_subrecord(p: &JsonValue, table: &ReferenceTable) -> (r: Vec<(String, JsonValue)>)
    ensures
        JsonValue::deep_fields(r@) == spec_resolve_subrecord(p.deep(), table.deep()),
    decreases *p,
{
    match p {
        JsonValue::Object(pf) => {
            proof {
                assert(decreases_to!(*p => *pf));
                assert(decreases_to!(*pf => pf@));
            }
            resolve_embedded(pf, table)
        },
        _ => {
            let r: Vec<(String, JsonValue)> = Vec::new();
            proof {
                assert(JsonValue::deep_fields(r@)
                    =~= Seq::<(Seq<char>, SpecValue)>::empty());
            }
            r
        },
    }
}

/// Finds the embedded entity of a sub-payload and resolves it.
fn resolve_embedded(
    pf: &Vec<(String, JsonValue)>,
    table: &ReferenceTable,
) -> (r: Vec<(String, JsonValue)>)
    ensures
        JsonValue::deep_fields(r@)
            == spec_resolve_embedded(JsonValue::deep_fields(pf@), table.deep()),
    decreases pf@,
{
    let ghost pdeep = JsonValue::deep_fields(pf@);
    let ghost tdeep = table.deep();
    proof {
        lemma_deep_fields(pf@);
        reveal_strlit("object_entity_attribute_values");
    }
    let mut j: usize = 0;
    while j < pf.len()
        invariant
            j <= pf.len(),
            forall|k: int| 0 <= k < j ==> pdeep[k].0 != "object_entity_attribute_values"@,
        decreases pf.len() - j,
    {
        if str_eq(pf[j].0.as_str(), "object_entity_attribute_values") {
            proof {
                lemma_resolve_embedded_at(pdeep, tdeep, j as int);
            }
            match &pf[j].1 {
                JsonValue::Object(ef) => {
                    proof {
                        assert(decreases_to!(pf@ => pf@[j as int]));
                        assert(decreases_to!(pf@[j as int] => pf@[j as int].1));
                        assert(decreases_to!(pf@[j as int].1 => *ef));
                        assert(decreases_to!(*ef => ef@));
                    }
                    return convert_raw_entity(ef, table);
                },
                _ => {
                    let r: Vec<(String, JsonValue)> = Vec::new();
                    proof {
                        assert(JsonValue::deep_fields(r@)
                            =~= Seq::<(Seq<char>, SpecValue)>::empty());
                    }
                    return r;
                },
            }
        }
        j = j + 1;
    }
    proof {
        lemma_resolve_embedded_none(pdeep, tdeep);
    }
    let r: Vec<(String, JsonValue)> = Vec::new();
    proof {
        assert(JsonValue::deep_fields(r@) =~= Seq::<(Seq<char>, SpecValue)>::empty());
    }
    r
}

} // verus!
