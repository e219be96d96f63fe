use vstd::prelude::*;

use crate::text::str_eq;

verus! {

/// The closed set of data types a reference attribute can declare. Only
/// `Picklist` and `NestedForm` get special treatment during resolution;
/// every other type passes values through unchanged.
#[derive(Clone, Copy, PartialEq, Eq, Structural, Debug)]
pub enum ObjectAttributeDataType {
    Address,
    Boolean,
    Currency,
    Date,
    Datetime,
    Email,
    EncryptedString,
    File,
    Float,
    Id,
    Integer,
    NestedForm,
    Number,
    Percent,
    Phone,
    Picklist,
    Reference,
    String,
    Text,
    Textarea,
    Richtextarea,
}

/// The wire token of each data type.
pub open spec fn spec_data_type_token(dt: ObjectAttributeDataType) -> Seq<char> {
    match dt {
        ObjectAttributeDataType::Address => "address"@,
        ObjectAttributeDataType::Boolean => "boolean"@,
        ObjectAttributeDataType::Currency => "currency"@,
        ObjectAttributeDataType::Date => "date"@,
        ObjectAttributeDataType::Datetime => "datetime"@,
        ObjectAttributeDataType::Email => "email"@,
        ObjectAttributeDataType::EncryptedString => "encrypted_string"@,
        ObjectAttributeDataType::File => "file"@,
        ObjectAttributeDataType::Float => "float"@,
        ObjectAttributeDataType::Id => "id"@,
        ObjectAttributeDataType::Integer => "integer"@,
        ObjectAttributeDataType::NestedForm => "nested_form"@,
        ObjectAttributeDataType::Number => "number"@,
        ObjectAttributeDataType::Percent => "percent"@,
        ObjectAttributeDataType::Phone => "phone"@,
        ObjectAttributeDataType::Picklist => "picklist"@,
        ObjectAttributeDataType::Reference => "reference"@,
        ObjectAttributeDataType::String => "string"@,
        ObjectAttributeDataType::Text => "text"@,
        ObjectAttributeDataType::Textarea => "textarea"@,
        ObjectAttributeDataType::Richtextarea => "rich_textarea"@,
    }
}

impl ObjectAttributeDataType {
    /// The textual token of this data type, as it appears on the wire.
    pub fn token(&self) -> (r: String)
        ensures
            r@ == spec_data_type_token(*self),
    {
        match self {
            ObjectAttributeDataType::Address => "address".to_owned(),
            ObjectAttributeDataType::Boolean => "boolean".to_owned(),
            ObjectAttributeDataType::Currency => "currency".to_owned(),
            ObjectAttributeDataType::Date => "date".to_owned(),
            ObjectAttributeDataType::Datetime => "datetime".to_owned(),
            ObjectAttributeDataType::Email => "email".to_owned(),
            ObjectAttributeDataType::EncryptedString => "encrypted_string".to_owned(),
            ObjectAttributeDataType::File => "file".to_owned(),
            ObjectAttributeDataType::Float => "float".to_owned(),
            ObjectAttributeDataType::Id => "id".to_owned(),
            ObjectAttributeDataType::Integer => "integer".to_owned(),
            ObjectAttributeDataType::NestedForm => "nested_form".to_owned(),
            ObjectAttributeDataType::Number => "number".to_owned(),
            ObjectAttributeDataType::Percent => "percent".to_owned(),
            ObjectAttributeDataType::Phone => "phone".to_owned(),
            ObjectAttributeDataType::Picklist => "picklist".to_owned(),
            ObjectAttributeDataType::Reference => "reference".to_owned(),
            ObjectAttributeDataType::String => "string".to_owned(),
            ObjectAttributeDataType::Text => "text".to_owned(),
            ObjectAttributeDataType::Textarea => "textarea".to_owned(),
            ObjectAttributeDataType::Richtextarea => "rich_textarea".to_owned(),
        }
    }
}

/// One selectable option of a picklist attribute.
pub struct PicklistOption {
    pub id: String,
    pub name: String,
}

/// Ghost model of a picklist option.
pub struct SpecPicklistOption {
    pub id: Seq<char>,
    pub name: Seq<char>,
}

impl PicklistOption {
    pub open spec fn deep(self) -> SpecPicklistOption {
        SpecPicklistOption { id: self.id@, name: self.name@ }
    }
}

/// One entry of the reference dictionary: a display name, a data type and
/// the ordered picklist options the attribute declares.
pub struct ObjectAttribute {
    pub data_type: ObjectAttributeDataType,
    pub name: String,
    pub picklist_options: Vec<PicklistOption>,
}

/// Ghost model of a reference attribute.
pub struct SpecObjectAttribute {
    pub data_type: ObjectAttributeDataType,
    pub name: Seq<char>,
    pub picklist_options: Seq<SpecPicklistOption>,
}

impl ObjectAttribute {
    pub open spec fn deep(self) -> SpecObjectAttribute {
        SpecObjectAttribute {
            data_type: self.data_type,
            name: self.name@,
            picklist_options: self.picklist_options@.map_values(|o: PicklistOption| o.deep()),
        }
    }
}

/// The label of the first option whose identifier matches, if any.
pub open spec fn spec_option_label(options: Seq<SpecPicklistOption>, id: Seq<char>)
    -> Option<Seq<char>>
    decreases options.len(),
{
    if options.len() == 0 {
        None
    } else if options[0].id == id {
        Some(options[0].name)
    } else {
        spec_option_label(options.drop_first(), id)
    }
}

pub proof fn lemma_option_label_at(options: Seq<SpecPicklistOption>, id: Seq<char>, i: int)
    requires
        0 <= i < options.len(),
        forall|j: int| 0 <= j < i ==> options[j].id != id,
        options[i].id == id,
    ensures
        spec_option_label(options, id) == Some(options[i].name),
    decreases i,
{
    if i > 0 {
        assert(options.drop_first()[i - 1] == options[i]);
        assert(forall|j: int| 0 <= j < i - 1 ==> options.drop_first()[j] == options[j + 1]);
        lemma_option_label_at(options.drop_first(), id, i - 1);
    }
}

pub proof fn lemma_option_label_none(options: Seq<SpecPicklistOption>, id: Seq<char>)
    requires
        forall|j: int| 0 <= j < options.len() ==> options[j].id != id,
    ensures
        spec_option_label(options, id) == None::<Seq<char>>,
    decreases options.len(),
{
    if options.len() > 0 {
        assert(forall|j: int| 0 <= j < options.len() - 1
            ==> options.drop_first()[j] == options[j + 1]);
        lemma_option_label_none(options.drop_first(), id);
    }
}

/// Looks the identifier up among the options; first match wins.
pub fn find_option_label(options: &Vec<PicklistOption>, id: &str) -> (r: Option<String>)
    ensures
        match r {
            Some(name) => spec_option_label(
                options@.map_values(|o: PicklistOption| o.deep()), id@) == Some(name@),
            None => spec_option_label(
                options@.map_values(|o: PicklistOption| o.deep()), id@) == None::<Seq<char>>,
        },
{
    let ghost opts = options@.map_values(|o: PicklistOption| o.deep());
    let mut i: usize = 0;
    while i < options.len()
        invariant
            i <= options.len(),
            opts == options@.map_values(|o: PicklistOption| o.deep()),
            forall|j: int| 0 <= j < i ==> opts[j].id != id@,
        decreases options.len() - i,
    {
        if str_eq(options[i].id.as_str(), id) {
            proof {
                lemma_option_label_at(opts, id@, i as int);
            }
            return Some(options[i].name.clone());
        }
        i = i + 1;
    }
    proof {
        lemma_option_label_none(opts, id@);
    }
    None
}

/// The flat, read-only lookup table from attribute identifier to
/// attribute definition, built once from the reference document.
pub struct ReferenceTable {
    pub entries: Vec<(String, ObjectAttribute)>,
}

/// Ghost model of the table: an association list searched front to back.
pub type SpecTable = Seq<(Seq<char>, SpecObjectAttribute)>;

/// The definition attached to the first entry whose identifier matches.
pub open spec fn spec_table_get(entries: SpecTable, id: Seq<char>) -> Option<SpecObjectAttribute>
    decreases entries.len(),
{
    if entries.len() == 0 {
        None
    } else if entries[0].0 == id {
        Some(entries[0].1)
    } else {
        spec_table_get(entries.drop_first(), id)
    }
}

proof fn lemma_table_get_at(entries: SpecTable, id: Seq<char>, i: int)
    requires
        0 <= i < entries.len(),
        forall|j: int| 0 <= j < i ==> entries[j].0 != id,
        entries[i].0 == id,
    ensures
        spec_table_get(entries, id) == Some(entries[i].1),
    decreases i,
{
    if i > 0 {
        assert(entries.drop_first()[i - 1] == entries[i]);
        assert(forall|j: int| 0 <= j < i - 1 ==> entries.drop_first()[j] == entries[j + 1]);
        lemma_table_get_at(entries.drop_first(), id, i - 1);
    }
}

proof fn lemma_table_get_none(entries: SpecTable, id: Seq<char>)
    requires
        forall|j: int| 0 <= j < entries.len() ==> entries[j].0 != id,
    ensures
        spec_table_get(entries, id) == None::<SpecObjectAttribute>,
    decreases entries.len(),
{
    if entries.len() > 0 {
        assert(forall|j: int| 0 <= j < entries.len() - 1
            ==> entries.drop_first()[j] == entries[j + 1]);
        lemma_table_get_none(entries.drop_first(), id);
    }
}

impl ReferenceTable {
    pub open spec fn deep(self) -> SpecTable {
        self.entries@.map_values(|e: (String, ObjectAttribute)| (e.0@, e.1.deep()))
    }

    /// A table with no entries.
    pub fn new() -> (r: ReferenceTable)
        ensures
            r.deep() == Seq::<(Seq<char>, SpecObjectAttribute)>::empty(),
    {
        let r = ReferenceTable { entries: Vec::new() };
        proof {
            assert(r.deep() =~= Seq::<(Seq<char>, SpecObjectAttribute)>::empty());
        }
        r
    }

    /// Finds the attribute registered under an identifier; first match wins.
    pub fn get<'a>(&'a self, id: &str) -> (r: Option<&'a ObjectAttribute>)
        ensures
            match r {
                Some(oa) => spec_table_get(self.deep(), id@) == Some(oa.deep()),
                None => spec_table_get(self.deep(), id@) == None::<SpecObjectAttribute>,
            },
    {
        let ghost entries = self.deep();
        let mut i: usize = 0;
        while i < self.entries.len()
            invariant
                i <= self.entries.len(),
                entries == self.deep(),
                forall|j: int| 0 <= j < i ==> entries[j].0 != id@,
            decreases self.entries.len() - i,
        {
            if str_eq(self.entries[i].0.as_str(), id) {
                proof {
                    lemma_table_get_at(entries, id@, i as int);
                }
                return Some(&self.entries[i].1);
            }
            i = i + 1;
        }
        proof {
            lemma_table_get_none(entries, id@);
        }
        None
    }

    /// Whether an attribute is registered under this identifier.
    pub fn contains_key(&self, id: &str) -> (r: bool)
        ensures
            r == (spec_table_get(self.deep(), id@) is Some),
    {
        match self.get(id) {
            Some(_) => true,
            None => false,
        }
    }
}

} // verus!
