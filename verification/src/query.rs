use vstd::prelude::*;

use crate::attribute::{
    ObjectAttributeDataType, PicklistOption, ReferenceTable, SpecPicklistOption, SpecTable,
    find_option_label, spec_option_label, spec_table_get,
};
use crate::render::{render_value, spec_render};
use crate::value::{JsonValue, SpecValue, duplicate_value, lemma_deep_seq, push_char};

verus! {

/// The boolean connective of a query group.
#[derive(Clone, Copy, PartialEq, Eq, Structural, Debug)]
pub enum SearchQueryGroupOperator {
    And,
    Or,
    Not,
}

/// The comparison, temporal or presence operator of a leaf condition.
#[derive(Clone, Copy, PartialEq, Eq, Structural, Debug)]
pub enum SearchQueryConditionOperator {
    Equal,
    NotEqual,
    Contain,
    NotContain,
    IsPresent,
    IsBlank,
    Greater,
    GreaterOrEqual,
    Less,
    LessOrEqual,
    Between,
    Today,
    BeforeToday,
    AfterToday,
    ThisWeek,
    BeforeThisWeek,
    AfterThisWeek,
    ThisMonth,
    BeforeThisMonth,
    AfterThisMonth,
    ThisQuarter,
    BeforeThisQuarter,
    AfterThisQuarter,
    ThisYear,
    BeforeThisYear,
    AfterThisYear,
    AnyOf,
    NoneOf,
    IsTrue,
    IsFalse,
    Address,
}

/// One leaf condition of the query tree.
pub struct SearchQueryCondition {
    pub operator: SearchQueryConditionOperator,
    pub object_attribute_id: String,
    pub value: Option<JsonValue>,
}

/// One node of the query tree: a connective over optional leaf conditions
/// and optional child groups.
pub struct SearchQueryGroup {
    pub operator: SearchQueryGroupOperator,
    pub search_query_conditions: Option<Vec<SearchQueryCondition>>,
    pub children: Option<Vec<SearchQueryGroup>>,
}

/// A whole query: a list of top-level groups.
pub struct SearchQuery {
    pub search_query_groups: Vec<SearchQueryGroup>,
}

/// Ghost model of a leaf condition.
pub struct SpecCondition {
    pub operator: SearchQueryConditionOperator,
    pub attribute_id: Seq<char>,
    pub value: Option<SpecValue>,
}

/// Ghost model of a query group.
pub struct SpecGroup {
    pub operator: SearchQueryGroupOperator,
    pub conditions: Option<Seq<SpecCondition>>,
    pub children: Option<Seq<SpecGroup>>,
}

impl SearchQueryCondition {
    pub open spec fn deep(self) -> SpecCondition {
        SpecCondition {
            operator: self.operator,
            attribute_id: self.object_attribute_id@,
            value: match self.value {
                Some(v) => Some(v.deep()),
                None => None,
            },
        }
    }
}

impl SearchQueryGroup {
    pub open spec fn deep(self) -> SpecGroup
        decreases self,
    {
        SpecGroup {
            operator: self.operator,
            conditions: match self.search_query_conditions {
                Some(cs) => Some(cs@.map_values(|c: SearchQueryCondition| c.deep())),
                None => None,
            },
            children: match self.children {
                Some(gs) => Some(Self::deep_groups(gs@)),
                None => None,
            },
        }
    }

    pub open spec fn deep_groups(s: Seq<SearchQueryGroup>) -> Seq<SpecGroup>
        decreases s,
    {
        if s.len() == 0 {
            Seq::empty()
        } else {
            Self::deep_groups(s.drop_last()).push(s.last().deep())
        }
    }
}

pub broadcast proof fn lemma_deep_groups(s: Seq<SearchQueryGroup>)
    ensures
        (#[trigger] SearchQueryGroup::deep_groups(s)).len() == s.len(),
        forall|i: int| 0 <= i < s.len() ==> SearchQueryGroup::deep_groups(s)[i] == s[i].deep(),
    decreases s.len(),
{
    if s.len() > 0 {
        lemma_deep_groups(s.drop_last());
    }
}

/// The upper-case token of a group connective.
pub open spec fn spec_group_operator_token(op: SearchQueryGroupOperator) -> Seq<char> {
    match op {
        SearchQueryGroupOperator::And => "AND"@,
        SearchQueryGroupOperator::Or => "OR"@,
        SearchQueryGroupOperator::Not => "NOT"@,
    }
}

/// The lower-snake-case token of a condition operator.
pub open spec fn spec_condition_operator_token(op: SearchQueryConditionOperator) -> Seq<char> {
    match op {
        SearchQueryConditionOperator::Equal => "equal"@,
        SearchQueryConditionOperator::NotEqual => "not_equal"@,
        SearchQueryConditionOperator::Contain => "contain"@,
        SearchQueryConditionOperator::NotContain => "not_contain"@,
        SearchQueryConditionOperator::IsPresent => "is_present"@,
        SearchQueryConditionOperator::IsBlank => "is_blank"@,
        SearchQueryConditionOperator::Greater => "greater_than"@,
        SearchQueryConditionOperator::GreaterOrEqual => "greater_than_equal"@,
        SearchQueryConditionOperator::Less => "less_than"@,
        SearchQueryConditionOperator::LessOrEqual => "less_than_equal"@,
        SearchQueryConditionOperator::Between => "between"@,
        SearchQueryConditionOperator::Today => "today"@,
        SearchQueryConditionOperator::BeforeToday => "before_today"@,
        SearchQueryConditionOperator::AfterToday => "after_today"@,
        SearchQueryConditionOperator::ThisWeek => "this_week"@,
        SearchQueryConditionOperator::BeforeThisWeek => "before_this_week"@,
        SearchQueryConditionOperator::AfterThisWeek => "after_this_week"@,
        SearchQueryConditionOperator::ThisMonth => "this_month"@,
        SearchQueryConditionOperator::BeforeThisMonth => "before_this_month"@,
        SearchQueryConditionOperator::AfterThisMonth => "after_this_month"@,
        SearchQueryConditionOperator::ThisQuarter => "this_quarter"@,
        SearchQueryConditionOperator::BeforeThisQuarter => "before_this_quarter"@,
        SearchQueryConditionOperator::AfterThisQuarter => "after_this_quarter"@,
        SearchQueryConditionOperator::ThisYear => "this_year"@,
        SearchQueryConditionOperator::BeforeThisYear => "before_this_year"@,
        SearchQueryConditionOperator::AfterThisYear => "after_this_year"@,
        SearchQueryConditionOperator::AnyOf => "any_of"@,
        SearchQueryConditionOperator::NoneOf => "none_of"@,
        SearchQueryConditionOperator::IsTrue => "is_true"@,
        SearchQueryConditionOperator::IsFalse => "is_false"@,
        SearchQueryConditionOperator::Address => "address"@,
    }
}

/// The label one picklist option identifier substitutes to in a query:
/// the option's name, or the sentinel `not_found_picklist_label`.
pub open spec fn spec_query_option_item(options: Seq<SpecPicklistOption>, v: SpecValue)
    -> SpecValue
{
    match v {
        SpecValue::Text(id) => match spec_option_label(options, id) {
            Some(name) => SpecValue::Text(name),
            None => SpecValue::Text("not_found_picklist_label"@),
        },
        _ => SpecValue::Text("not_found_picklist_label"@),
    }
}

/// How a picklist condition's value is substituted before rendering: a
/// string maps to a single label, an array maps element-wise, and any
/// other shape becomes a fixed placeholder string.
pub open spec fn spec_process_picklist_value(options: Seq<SpecPicklistOption>, v: SpecValue)
    -> SpecValue
{
    match v {
        SpecValue::Text(_) => spec_query_option_item(options, v),
        SpecValue::Array(items) => SpecValue::Array(
            items.map_values(|it: SpecValue| spec_query_option_item(options, it)),
        ),
        _ => SpecValue::Text(
            "picklist value is {option_id_value:#?}, which is not implemented yet."@,
        ),
    }
}

/// The display name and substituted value a condition resolves to: an
/// unknown attribute identifier degrades to the name `not_found`, and a
/// picklist attribute's value goes through option substitution.
pub open spec fn spec_condition_resolved(c: SpecCondition, table: SpecTable)
    -> (Seq<char>, Option<SpecValue>)
{
    match spec_table_get(table, c.attribute_id) {
        Some(oa) => (
            oa.name,
            if oa.data_type == ObjectAttributeDataType::Picklist {
                match c.value {
                    Some(v) => Some(spec_process_picklist_value(oa.picklist_options, v)),
                    None => None,
                }
            } else {
                c.value
            },
        ),
        None => ("not_found"@, c.value),
    }
}

/// A rendered condition: `(op name)` without a value, `(op name value)`
/// with one, the value in its compact JSON form.
pub open spec fn spec_condition_expr(c: SpecCondition, table: SpecTable) -> Seq<char> {
    let r = spec_condition_resolved(c, table);
    match r.1 {
        Some(v) => seq!['('] + spec_condition_operator_token(c.operator) + seq![' '] + r.0
            + seq![' '] + spec_render(v) + seq![')'],
        None => seq!['('] + spec_condition_operator_token(c.operator) + seq![' '] + r.0
            + seq![')'],
    }
}

/// Rendered conditions joined by single spaces.
pub open spec fn spec_conditions_expr(cs: Seq<SpecCondition>, table: SpecTable) -> Seq<char>
    decreases cs,
{
    if cs.len() == 0 {
        Seq::empty()
    } else if cs.len() == 1 {
        spec_condition_expr(cs.last(), table)
    } else {
        spec_conditions_expr(cs.drop_last(), table) + seq![' ']
            + spec_condition_expr(cs.last(), table)
    }
}

/// A rendered group: `(OPERATOR conditions children)`, the conditions and
/// children parts each omitted when absent.
pub open spec fn spec_group_expr(g: SpecGroup, table: SpecTable) -> Seq<char>
    decreases g,
{
    seq!['('] + spec_group_operator_token(g.operator)
        + (match g.conditions {
            Some(cs) => seq![' '] + spec_conditions_expr(cs, table),
            None => Seq::empty(),
        })
        + (match g.children {
            Some(gs) => seq![' '] + spec_children_expr(gs, table),
            None => Seq::empty(),
        })
        + seq![')']
}

/// Rendered child groups joined by single spaces.
pub open spec fn spec_children_expr(gs: Seq<SpecGroup>, table: SpecTable) -> Seq<char>
    decreases gs,
{
    if gs.len() == 0 {
        Seq::empty()
    } else if gs.len() == 1 {
        spec_group_expr(gs.last(), table)
    } else {
        spec_children_expr(gs.drop_last(), table) + seq![' '] + spec_group_expr(gs.last(), table)
    }
}

/// A rendered query: its top-level groups joined by single spaces.
pub open spec fn spec_query_expr(q: Seq<SpecGroup>, table: SpecTable) -> Seq<char>
    decreases q,
{
    if q.len() == 0 {
        Seq::empty()
    } else if q.len() == 1 {
        spec_group_expr(q.last(), table)
    } else {
        spec_query_expr(q.drop_last(), table) + seq![' '] + spec_group_expr(q.last(), table)
    }
}

fn group_operator_token(op: &SearchQueryGroupOperator) -> (r: String)
    ensures
        r@ == spec_group_operator_token(*op),
{
    match op {
        SearchQueryGroupOperator::And => "AND".to_owned(),
        SearchQueryGroupOperator::Or => "OR".to_owned(),
        SearchQueryGroupOperator::Not => "NOT".to_owned(),
    }
}

fn condition_operator_token(op: &SearchQueryConditionOperator) -> (r: String)
    ensures
        r@ == spec_condition_operator_token(*op),
{
    match op {
        SearchQueryConditionOperator::Equal => "equal".to_owned(),
        SearchQueryConditionOperator::NotEqual => "not_equal".to_owned(),
        SearchQueryConditionOperator::Contain => "contain".to_owned(),
        SearchQueryConditionOperator::NotContain => "not_contain".to_owned(),
        SearchQueryConditionOperator::IsPresent => "is_present".to_owned(),
        SearchQueryConditionOperator::IsBlank => "is_blank".to_owned(),
        SearchQueryConditionOperator::Greater => "greater_than".to_owned(),
        SearchQueryConditionOperator::GreaterOrEqual => "greater_than_equal".to_owned(),
        SearchQueryConditionOperator::Less => "less_than".to_owned(),
        SearchQueryConditionOperator::LessOrEqual => "less_than_equal".to_owned(),
        SearchQueryConditionOperator::Between => "between".to_owned(),
        SearchQueryConditionOperator::Today => "today".to_owned(),
        SearchQueryConditionOperator::BeforeToday => "before_today".to_owned(),
        SearchQueryConditionOperator::AfterToday => "after_today".to_owned(),
        SearchQueryConditionOperator::ThisWeek => "this_week".to_owned(),
        SearchQueryConditionOperator::BeforeThisWeek => "before_this_week".to_owned(),
        SearchQueryConditionOperator::AfterThisWeek => "after_this_week".to_owned(),
        SearchQueryConditionOperator::ThisMonth => "this_month".to_owned(),
        SearchQueryConditionOperator::BeforeThisMonth => "before_this_month".to_owned(),
        SearchQueryConditionOperator::AfterThisMonth => "after_this_month".to_owned(),
        SearchQueryConditionOperator::ThisQuarter => "this_quarter".to_owned(),
        SearchQueryConditionOperator::BeforeThisQuarter => "before_this_quarter".to_owned(),
        SearchQueryConditionOperator::AfterThisQuarter => "after_this_quarter".to_owned(),
        SearchQueryConditionOperator::ThisYear => "this_year".to_owned(),
        SearchQueryConditionOperator::BeforeThisYear => "before_this_year".to_owned(),
        SearchQueryConditionOperator::AfterThisYear => "after_this_year".to_owned(),
        SearchQueryConditionOperator::AnyOf => "any_of".to_owned(),
        SearchQueryConditionOperator::NoneOf => "none_of".to_owned(),
        SearchQueryConditionOperator::IsTrue => "is_true".to_owned(),
        SearchQueryConditionOperator::IsFalse => "is_false".to_owned(),
        SearchQueryConditionOperator::Address => "address".to_owned(),
    }
}

/// Substitutes a single query value by its picklist option label.
fn query_option_item(options: &Vec<PicklistOption>, v: &JsonValue) -> (r: JsonValue)
    ensures
        r.deep() == spec_query_option_item(
            options@.map_values(|o: PicklistOption| o.deep()), v.deep()),
{
    match v {
        JsonValue::Text(id) => match find_option_label(options, id.as_str()) {
            Some(name) => JsonValue::Text(name),
            None => JsonValue::Text("not_found_picklist_label".to_owned()),
        },
        _ => JsonValue::Text("not_found_picklist_label".to_owned()),
    }
}

/// Substitutes a picklist condition value by option labels before it is
/// rendered.
pub fn process_picklist_oa_value(options: &Vec<PicklistOption>, v: &JsonValue) -> (r: JsonValue)
    ensures
        r.deep() == spec_process_picklist_value(
            options@.map_values(|o: PicklistOption| o.deep()), v.deep()),
{
    let ghost opts = options@.map_values(|o: PicklistOption| o.deep());
    match v {
        JsonValue::Text(_) => query_option_item(options, v),
        JsonValue::Array(items) => {
            let ghost ideep = JsonValue::deep_seq(items@);
            proof {
                lemma_deep_seq(items@);
            }
            let mut out: Vec<JsonValue> = Vec::new();
            let mut i: usize = 0;
            while i < items.len()
                invariant
                    i <= items.len(),
                    out@.len() == i as nat,
                    forall|j: int| 0 <= j < i ==> out@[j].deep()
                        == spec_query_option_item(opts, ideep[j]),
                decreases items.len() - i,
            {
                let e = query_option_item(options, &items[i]);
                out.push(e);
                i = i + 1;
            }
            proof {
                lemma_deep_seq(out@);
                assert(JsonValue::deep_seq(out@)
                    =~= ideep.map_values(|it: SpecValue| spec_query_option_item(opts, it)));
            }
            JsonValue::Array(out)
        },
        _ => JsonValue::Text(
            "picklist value is {option_id_value:#?}, which is not implemented yet.".to_owned(),
        ),
    }
}

/// Renders one condition as `(op name)` or `(op name value)`.
fn condition_expr(c: &SearchQueryCondition, table: &ReferenceTable) -> (r: String)
    ensures
        r@ == spec_condition_expr(c.deep(), table.deep()),
{
    let mut out = String::new();
    push_char(&mut out, '(');
    let token = condition_operator_token(&c.operator);
    out.append(token.as_str());
    push_char(&mut out, ' ');
    let mut value: Option<JsonValue> = None;
    match table.get(c.object_attribute_id.as_str()) {
        Some(oa) => {
            out.append(oa.name.as_str());
            if oa.data_type == ObjectAttributeDataType::Picklist {
                match &c.value {
                    Some(v) => {
                        value = Some(process_picklist_oa_value(&oa.picklist_options, v));
                    },
                    None => {},
                }
            } else {
                match &c.value {
                    Some(v) => {
                        value = Some(duplicate_value(v));
                    },
                    None => {},
                }
            }
        },
        None => {
            out.append("not_found");
            match &c.value {
                Some(v) => {
                    value = Some(duplicate_value(v));
                },
                None => {},
            }
        },
    }
    match &value {
        Some(v) => {
            push_char(&mut out, ' ');
            let piece = render_value(v);
            out.append(piece.as_str());
        },
        None => {},
    }
    push_char(&mut out, ')');
    assert(out@ =~= spec_condition_expr(c.deep(), table.deep()));
    out
}

proof fn lemma_conditions_step(cs: Seq<SpecCondition>, table: SpecTable, i: int)
    requires
        0 <= i < cs.len(),
    ensures
        i == 0 ==> spec_conditions_expr(cs.take(1), table) == spec_condition_expr(cs[0], table),
        i > 0 ==> spec_conditions_expr(cs.take(i + 1), table)
            == spec_conditions_expr(cs.take(i), table) + seq![' ']
                + spec_condition_expr(cs[i], table),
{
    assert(cs.take(i + 1).drop_last() =~= cs.take(i));
    assert(cs.take(i + 1).last() == cs[i]);
}

/// Renders the conditions of a group, space-joined.
pub fn parse_search_query_conditions(
    conditions: &Vec<SearchQueryCondition>,
    table: &ReferenceTable,
) -> (r: String)
    ensures
        r@ == spec_conditions_expr(
            conditions@.map_values(|c: SearchQueryCondition| c.deep()), table.deep()),
{
    let ghost cdeep = conditions@.map_values(|c: SearchQueryCondition| c.deep());
    let mut out = String::new();
    let mut i: usize = 0;
    while i < conditions.len()
        invariant
            i <= conditions.len(),
            cdeep == conditions@.map_values(|c: SearchQueryCondition| c.deep()),
            out@ == spec_conditions_expr(cdeep.take(i as int), table.deep()),
        decreases conditions.len() - i,
    {
        if i > 0 {
            push_char(&mut out, ' ');
        }
        let piece = condition_expr(&conditions[i], table);
        out.append(piece.as_str());
        proof {
            lemma_conditions_step(cdeep, table.deep(), i as int);
        }
        i = i + 1;
    }
    assert(cdeep.take(conditions@.len() as int) =~= cdeep);
    out
}

proof fn lemma_children_step(gs: Seq<SpecGroup>, table: SpecTable, i: int)
    requires
        0 <= i < gs.len(),
    ensures
        i == 0 ==> spec_children_expr(gs.take(1), table) == spec_group_expr(gs[0], table),
        i > 0 ==> spec_children_expr(gs.take(i + 1), table)
            == spec_children_expr(gs.take(i), table) + seq![' '] + spec_group_expr(gs[i], table),
{
    assert(gs.take(i + 1).drop_last() =~= gs.take(i));
    assert(gs.take(i + 1).last() == gs[i]);
}

proof fn lemma_query_step(gs: Seq<SpecGroup>, table: SpecTable, i: int)
    requires
        0 <= i < gs.len(),
    ensures
        i == 0 ==> spec_query_expr(gs.take(1), table) == spec_group_expr(gs[0], table),
        i > 0 ==> spec_query_expr(gs.take(i + 1), table)
            == spec_query_expr(gs.take(i), table) + seq![' '] + spec_group_expr(gs[i], table),
{
    assert(gs.take(i + 1).drop_last() =~= gs.take(i));
    assert(gs.take(i + 1).last() == gs[i]);
}

/// Renders one group of the query tree as a parenthesized prefix
/// expression.
pub fn parse_search_query_group(group: &SearchQueryGroup, table: &ReferenceTable) -> (r: String)
    ensures
        r@ == spec_group_expr(group.deep(), table.deep()),
    decreases *group,
{
    let mut out = String::new();
    push_char(&mut out, '(');
    let token = group_operator_token(&group.operator);
    out.append(token.as_str());
    match &group.search_query_conditions {
        Some(cs) => {
            push_char(&mut out, ' ');
            let piece = parse_search_query_conditions(cs, table);
            out.append(piece.as_str());
        },
        None => {},
    }
    match &group.children {
        Some(gs) => {
            push_char(&mut out, ' ');
            proof {
                assert(decreases_to!(*group => group.children));
                assert(decreases_to!(group.children => *gs));
                assert(decreases_to!(*gs => gs@));
            }
            let piece = parse_search_query_children(gs, table);
            out.append(piece.as_str());
        },
        None => {},
    }
    push_char(&mut out, ')');
    assert(out@ =~= spec_group_expr(group.deep(), table.deep()));
    out
}

/// Renders the child groups of a group, space-joined.
pub fn parse_search_query_children(
    children: &Vec<SearchQueryGroup>,
    table: &ReferenceTable,
) -> (r: String)
    ensures
        r@ == spec_children_expr(SearchQueryGroup::deep_groups(children@), table.deep()),
    decreases children@,
{
    let ghost gdeep = SearchQueryGroup::deep_groups(children@);
    proof {
        lemma_deep_groups(children@);
    }
    let mut out = String::new();
    let mut i: usize = 0;
    while i < children.len()
        invariant
            i <= children.len(),
            out@ == spec_children_expr(gdeep.take(i as int), table.deep()),
        decreases children.len() - i,
    {
        if i > 0 {
            push_char(&mut out, ' ');
        }
        proof {
            assert(decreases_to!(children@ => children@[i as int]));
        }
        let piece = parse_search_query_group(&children[i], table);
        out.append(piece.as_str());
        proof {
            lemma_children_step(gdeep, table.deep(), i as int);
        }
        i = i + 1;
    }
    assert(gdeep.take(children@.len() as int) =~= gdeep);
    out
}

/// Renders a whole query: its top-level groups in sequence, space-joined,
/// with no enclosing wrapper.
pub fn parse_search_query(search_query: &SearchQuery, table: &ReferenceTable) -> (r: String)
    ensures
        r@ == spec_query_expr(
            SearchQueryGroup::deep_groups(search_query.search_query_groups@), table.deep()),
{
    let ghost gdeep = SearchQueryGroup::deep_groups(search_query.search_query_groups@);
    proof {
        lemma_deep_groups(search_query.search_query_groups@);
    }
    let groups = &search_query.search_query_groups;
    let mut out = String::new();
    let mut i: usize = 0;
    while i < groups.len()
        invariant
            i <= groups.len(),
            out@ == spec_query_expr(gdeep.take(i as int), table.deep()),
        decreases groups.len() - i,
    {
        if i > 0 {
            push_char(&mut out, ' ');
        }
        let piece = parse_search_query_group(&groups[i], table);
        out.append(piece.as_str());
        proof {
            lemma_query_step(gdeep, table.deep(), i as int);
        }
        i = i + 1;
    }
    assert(gdeep.take(groups@.len() as int) =~= gdeep);
    out
}

} // verus!
