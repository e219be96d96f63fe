use vstd::prelude::*;

verus! {

/// Ghost model of a JSON document: strings are sequences of characters and
/// numbers keep their textual form.
pub enum SpecValue {
    Null,
    Bool(bool),
    Number(Seq<char>),
    Text(Seq<char>),
    Array(Seq<SpecValue>),
    Object(Seq<(Seq<char>, SpecValue)>),
}

/// A JSON document value. Numbers carry their textual rendering, so no
/// precision is lost and no floating point is involved.
#[derive(Debug, PartialEq, Eq)]
pub enum JsonValue {
    Null,
    Bool(bool),
    Number(String),
    Text(String),
    Array(Vec<JsonValue>),
    Object(Vec<(String, JsonValue)>),
}

impl JsonValue {
    /// The ghost model of this value.
    pub open spec fn deep(self) -> SpecValue
        decreases self,
    {
        match self {
            JsonValue::Null => SpecValue::Null,
            JsonValue::Bool(b) => SpecValue::Bool(b),
            JsonValue::Number(s) => SpecValue::Number(s@),
            JsonValue::Text(s) => SpecValue::Text(s@),
            JsonValue::Array(vs) => SpecValue::Array(Self::deep_seq(vs@)),
            JsonValue::Object(fs) => SpecValue::Object(Self::deep_fields(fs@)),
        }
    }

    pub open spec fn deep_seq(s: Seq<JsonValue>) -> Seq<SpecValue>
        decreases s,
    {
        if s.len() == 0 {
            Seq::empty()
        } else {
            Self::deep_seq(s.drop_last()).push(s.last().deep())
        }
    }

    pub open spec fn deep_fields(s: Seq<(String, JsonValue)>) -> Seq<(Seq<char>, SpecValue)>
        decreases s,
    {
        if s.len() == 0 {
            Seq::empty()
        } else {
            Self::deep_fields(s.drop_last()).push((s.last().0@, s.last().1.deep()))
        }
    }
}

pub broadcast proof fn lemma_deep_seq(s: Seq<JsonValue>)
    ensures
        (#[trigger] JsonValue::deep_seq(s)).len() == s.len(),
        forall|i: int| 0 <= i < s.len() ==> JsonValue::deep_seq(s)[i] == s[i].deep(),
    decreases s.len(),
{
    if s.len() > 0 {
        lemma_deep_seq(s.drop_last());
    }
}

pub broadcast proof fn lemma_deep_fields(s: Seq<(String, JsonValue)>)
    ensures
        (#[trigger] JsonValue::deep_fields(s)).len() == s.len(),
        forall|i: int| 0 <= i < s.len() ==> JsonValue::deep_fields(s)[i]
            == (s[i].0@, s[i].1.deep()),
    decreases s.len(),
{
    if s.len() > 0 {
        lemma_deep_fields(s.drop_last());
    }
}

/// Appends one character to a string.
/// Relies on String::push: it appends exactly the given character.
#[verifier::external_body]
pub fn push_char(s: &mut String, c: char)
    ensures
        final(s)@ == old(s)@.push(c),
{
    s.push(c);
}

/// Produces a fresh value with the same ghost model as the argument.
pub fn duplicate_value(v: &JsonValue) -> (r: JsonValue)
    ensures
        r.deep() == v.deep(),
    decreases *v,
{
    match v {
        JsonValue::Null => JsonValue::Null,
        JsonValue::Bool(b) => JsonValue::Bool(*b),
        JsonValue::Number(s) => JsonValue::Number(s.clone()),
        JsonValue::Text(s) => JsonValue::Text(s.clone()),
        JsonValue::Array(vs) => {
            let mut out: Vec<JsonValue> = Vec::new();
            let mut i: usize = 0;
            while i < vs.len()
                invariant
                    i <= vs.len(),
                    out@.len() == i as nat,
                    forall|j: int| 0 <= j < i ==> out@[j].deep() == vs@[j].deep(),
                decreases vs.len() - i,
            {
                proof {
                    assert(decreases_to!(*v => *vs));
                    assert(decreases_to!(*vs => vs@));
                }
                let e = duplicate_value(&vs[i]);
                out.push(e);
                i = i + 1;
            }
            proof {
                lemma_deep_seq(out@);
                lemma_deep_seq(vs@);
                assert(JsonValue::deep_seq(out@) =~= JsonValue::deep_seq(vs@));
            }
            JsonValue::Array(out)
        },
        JsonValue::Object(fs) => {
            let mut out: Vec<(String, JsonValue)> = Vec::new();
            let mut i: usize = 0;
            while i < fs.len()
                invariant
                    i <= fs.len(),
                    out@.len() == i as nat,
                    forall|j: int| 0 <= j < i ==> out@[j].0@ == fs@[j].0@
                        && out@[j].1.deep() == fs@[j].1.deep(),
                decreases fs.len() - i,
            {
                proof {
                    assert(decreases_to!(*v => *fs));
                    assert(decreases_to!(*fs => fs@));
                }
                let k = fs[i].0.clone();
                let e = duplicate_value(&fs[i].1);
                out.push((k, e));
                i = i + 1;
            }
            proof {
                lemma_deep_fields(out@);
                lemma_deep_fields(fs@);
                assert(JsonValue::deep_fields(out@) =~= JsonValue::deep_fields(fs@));
            }
            JsonValue::Object(out)
        },
    }
}

} // verus!
