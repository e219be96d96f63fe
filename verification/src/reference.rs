use vstd::prelude::*;

use crate::attribute::{
    ObjectAttribute, ObjectAttributeDataType, PicklistOption, ReferenceTable, SpecObjectAttribute,
    SpecPicklistOption, SpecTable, spec_table_get,
};
use crate::text::str_eq;

verus! {

/// One identifier of a declared picklist-option relationship.
pub struct RelationshipDataPicklistOption {
    pub id: String,
}

/// The relationship array of an attribute record; absent when the record
/// declares no picklist options.
pub struct Relationship {
    pub data: Option<Vec<RelationshipDataPicklistOption>>,
}

pub struct ObjectAttributesDataRelationships {
    pub picklist_options: Relationship,
}

pub struct ObjectAttributesDataAttributes {
    pub name: String,
    pub data_type: ObjectAttributeDataType,
}

/// One attribute record of the reference document.
pub struct ObjectAttributesData {
    pub id: String,
    pub attributes: ObjectAttributesDataAttributes,
    pub relationships: ObjectAttributesDataRelationships,
}

pub struct ObjectAttributesIncludedAttributes {
    pub name: String,
}

/// One included resource: a picklist option definition.
pub struct ObjectAttributesIncluded {
    pub id: String,
    pub attributes: ObjectAttributesIncludedAttributes,
}

/// The raw reference document: attribute records plus a side table of
/// included resources keyed by their own identifier.
pub struct ObjectAttributesRaw {
    pub data: Vec<ObjectAttributesData>,
    pub included: Vec<(String, ObjectAttributesIncluded)>,
}

/// Ghost model of one attribute record.
pub struct SpecAttrData {
    pub id: Seq<char>,
    pub name: Seq<char>,
    pub data_type: ObjectAttributeDataType,
    pub rel_ids: Option<Seq<Seq<char>>>,
}

/// Ghost model of one included resource.
pub struct SpecIncluded {
    pub id: Seq<char>,
    pub name: Seq<char>,
}

impl ObjectAttributesData {
    pub open spec fn deep(self) -> SpecAttrData {
        SpecAttrData {
            id: self.id@,
            name: self.attributes.name@,
            data_type: self.attributes.data_type,
            rel_ids: match self.relationships.picklist_options.data {
                Some(v) => Some(v@.map_values(|r: RelationshipDataPicklistOption| r.id@)),
                None => None,
            },
        }
    }
}

impl ObjectAttributesIncluded {
    pub open spec fn deep(self) -> SpecIncluded {
        SpecIncluded { id: self.id@, name: self.attributes.name@ }
    }
}

impl ObjectAttributesRaw {
    pub open spec fn deep_data(self) -> Seq<SpecAttrData> {
        self.data@.map_values(|d: ObjectAttributesData| d.deep())
    }

    pub open spec fn deep_included(self) -> Seq<(Seq<char>, SpecIncluded)> {
        self.included@.map_values(
            |e: (String, ObjectAttributesIncluded)| (e.0@, e.1.deep()),
        )
    }
}

/// The included resource registered under an identifier; first match wins.
pub open spec fn spec_included_get(inc: Seq<(Seq<char>, SpecIncluded)>, id: Seq<char>)
    -> Option<SpecIncluded>
    decreases inc.len(),
{
    if inc.len() == 0 {
        None
    } else if inc[0].0 == id {
        Some(inc[0].1)
    } else {
        spec_included_get(inc.drop_first(), id)
    }
}

/// The picklist option a relationship identifier resolves to: the included
/// resource when one matches, and a placeholder named `not_found` otherwise.
pub open spec fn spec_build_option(inc: Seq<(Seq<char>, SpecIncluded)>, rel_id: Seq<char>)
    -> SpecPicklistOption
{
    match spec_included_get(inc, rel_id) {
        Some(e) => SpecPicklistOption { id: e.id, name: e.name },
        None => SpecPicklistOption { id: rel_id, name: "not_found"@ },
    }
}

pub open spec fn spec_build_options(inc: Seq<(Seq<char>, SpecIncluded)>, rel_ids: Seq<Seq<char>>)
    -> Seq<SpecPicklistOption>
{
    rel_ids.map_values(|rel_id: Seq<char>| spec_build_option(inc, rel_id))
}

/// The table entry an attribute record loads to.
pub open spec fn spec_attr_of(inc: Seq<(Seq<char>, SpecIncluded)>, d: SpecAttrData)
    -> SpecObjectAttribute
{
    SpecObjectAttribute {
        data_type: d.data_type,
        name: d.name,
        picklist_options: match d.rel_ids {
            Some(ids) => spec_build_options(inc, ids),
            None => Seq::empty(),
        },
    }
}

/// The table the reference document loads to: records in order, the first
/// record of each identifier winning over later duplicates.
pub open spec fn spec_load(data: Seq<SpecAttrData>, inc: Seq<(Seq<char>, SpecIncluded)>)
    -> SpecTable
    decreases data.len(),
{
    if data.len() == 0 {
        Seq::empty()
    } else {
        let prev = spec_load(data.drop_last(), inc);
        let d = data.last();
        if spec_table_get(prev, d.id) is Some {
            prev
        } else {
            prev.push((d.id, spec_attr_of(inc, d)))
        }
    }
}

proof fn lemma_included_get_at(inc: Seq<(Seq<char>, SpecIncluded)>, id: Seq<char>, i: int)
    requires
        0 <= i < inc.len(),
        forall|j: int| 0 <= j < i ==> inc[j].0 != id,
        inc[i].0 == id,
    ensures
        spec_included_get(inc, id) == Some(inc[i].1),
    decreases i,
{
    if i > 0 {
        assert(inc.drop_first()[i - 1] == inc[i]);
        assert(forall|j: int| 0 <= j < i - 1 ==> inc.drop_first()[j] == inc[j + 1]);
        lemma_included_get_at(inc.drop_first(), id, i - 1);
    }
}

proof fn lemma_included_get_none(inc: Seq<(Seq<char>, SpecIncluded)>, id: Seq<char>)
    requires
        forall|j: int| 0 <= j < inc.len() ==> inc[j].0 != id,
    ensures
        spec_included_get(inc, id) == None::<SpecIncluded>,
    decreases inc.len(),
{
    if inc.len() > 0 {
        assert(forall|j: int| 0 <= j < inc.len() - 1 ==> inc.drop_first()[j] == inc[j + 1]);
        lemma_included_get_none(inc.drop_first(), id);
    }
}

/// Finds the included resource declared under an identifier.
fn included_get<'a>(
    included: &'a Vec<(String, ObjectAttributesIncluded)>,
    id: &str,
) -> (r: Option<&'a ObjectAttributesIncluded>)
    ensures
        ({
            let inc = included@.map_values(
                |e: (String, ObjectAttributesIncluded)| (e.0@, e.1.deep()),
            );
            match r {
                Some(e) => spec_included_get(inc, id@) == Some(e.deep()),
                None => spec_included_get(inc, id@) == None::<SpecIncluded>,
            }
        }),
{
    let ghost inc = included@.map_values(
        |e: (String, ObjectAttributesIncluded)| (e.0@, e.1.deep()),
    );
    let mut i: usize = 0;
    while i < included.len()
        invariant
            i <= included.len(),
            inc == included@.map_values(
                |e: (String, ObjectAttributesIncluded)| (e.0@, e.1.deep()),
            ),
            forall|j: int| 0 <= j < i ==> inc[j].0 != id@,
        decreases included.len() - i,
    {
        if str_eq(included[i].0.as_str(), id) {
            proof {
                lemma_included_get_at(inc, id@, i as int);
            }
            return Some(&included[i].1);
        }
        i = i + 1;
    }
    proof {
        lemma_included_get_none(inc, id@);
    }
    None
}

proof fn lemma_load_step(data: Seq<SpecAttrData>, inc: Seq<(Seq<char>, SpecIncluded)>, i: int)
    requires
        0 <= i < data.len(),
    ensures
        spec_load(data.take(i + 1), inc) == ({
            let prev = spec_load(data.take(i), inc);
            if spec_table_get(prev, data[i].id) is Some {
                prev
            } else {
                prev.push((data[i].id, spec_attr_of(inc, data[i])))
            }
        }),
{
    assert(data.take(i + 1).drop_last() =~= data.take(i));
    assert(data.take(i + 1).last() == data[i]);
}

/// Builds the flat lookup table from the raw reference document. Each
/// record's declared relationship identifiers are resolved against the
/// included resources, a missing resource degrading to a placeholder
/// option; the first record of a duplicated identifier wins.
pub fn parse(raw: ObjectAttributesRaw) -> (r: ReferenceTable)
    ensures
        r.deep() == spec_load(raw.deep_data(), raw.deep_included()),
{
    let ghost data = raw.deep_data();
    let ghost inc = raw.deep_included();
    let mut table = ReferenceTable::new();
    let mut i: usize = 0;
    while i < raw.data.len()
        invariant
            i <= raw.data.len(),
            data == raw.deep_data(),
            inc == raw.deep_included(),
            table.deep() == spec_load(data.take(i as int), inc),
        decreases raw.data.len() - i,
    {
        let d = &raw.data[i];
        let mut options: Vec<PicklistOption> = Vec::new();
        let ghost rel_ids: Seq<Seq<char>> = match d.deep().rel_ids {
            Some(ids) => ids,
            None => Seq::empty(),
        };
        match &d.relationships.picklist_options.data {
            Some(rels) => {
                let mut j: usize = 0;
                while j < rels.len()
                    invariant
                        j <= rels.len(),
                        inc == raw.deep_included(),
                        rel_ids == rels@.map_values(
                            |r: RelationshipDataPicklistOption| r.id@,
                        ),
                        options@.map_values(|o: PicklistOption| o.deep())
                            =~= spec_build_options(inc, rel_ids.take(j as int)),
                    decreases rels.len() - j,
                {
                    let rel = &rels[j];
                    let opt = match included_get(&raw.included, rel.id.as_str()) {
                        Some(e) => PicklistOption {
                            id: e.id.clone(),
                            name: e.attributes.name.clone(),
                        },
                        None => PicklistOption {
                            id: rel.id.clone(),
                            name: "not_found".to_owned(),
                        },
                    };
                    proof {
                        assert(rel_ids[j as int] == rel.id@);
                        assert(opt.deep() == spec_build_option(inc, rel_ids[j as int]));
                    }
                    let ghost prev_opts = options@;
                    options.push(opt);
                    proof {
                        assert(options@ == prev_opts.push(opt));
                        assert(options@.map_values(|o: PicklistOption| o.deep())
                            =~= prev_opts.map_values(|o: PicklistOption| o.deep())
                                .push(opt.deep()));
                        assert(options@.map_values(|o: PicklistOption| o.deep())
                            =~= spec_build_options(inc, rel_ids.take(j + 1)));
                    }
                    j = j + 1;
                }
                assert(rel_ids.take(rels@.len() as int) =~= rel_ids);
            },
            None => {
                assert(options@.map_values(|o: PicklistOption| o.deep())
                    =~= Seq::<SpecPicklistOption>::empty());
            },
        }
        let oa = ObjectAttribute {
            data_type: d.attributes.data_type,
            name: d.attributes.name.clone(),
            picklist_options: options,
        };
        assert(oa.deep() == spec_attr_of(inc, data[i as int]));
        let absent = match table.get(d.id.as_str()) {
            Some(_) => false,
            None => true,
        };
        if absent {
            let key = d.id.clone();
            table.entries.push((key, oa));
            assert(table.deep() =~= spec_load(data.take(i as int), inc)
                .push((data[i as int].id, spec_attr_of(inc, data[i as int]))));
        }
        proof {
            lemma_load_step(data, inc, i as int);
        }
        i = i + 1;
    }
    assert(data.take(raw.data@.len() as int) =~= data);
    table
}

} // verus!
