//! Values of the conventional serialization format: scalars, lists and
//! mappings that keep the order of their entries.

use vstd::prelude::*;

verus! {

/// A value of a document. Of a number that is no integer of 64 bits with
/// a sign, only its kind is kept.
#[derive(Debug)]
pub enum YamlValue {
    Null,
    Bool(bool),
    Int(i64),
    Number,
    Str(String),
    List(Vec<YamlValue>),
    Mapping(Vec<YamlEntry>),
}

/// An entry of a mapping.
#[derive(Debug)]
pub struct YamlEntry {
    pub key: YamlValue,
    pub value: YamlValue,
}

/// Model of a [`YamlValue`].
pub ghost enum YamlView {
    Null,
    Bool(bool),
    Int(i64),
    Number,
    Str(Seq<char>),
    List(Seq<YamlView>),
    Mapping(Seq<(YamlView, YamlView)>),
}

/// The model of a value: scalars as they are, lists and mappings with the
/// models of what they hold, in the same order.
pub open spec fn yaml_view(value: YamlValue) -> YamlView
    decreases value,
{
    match value {
        YamlValue::Null => YamlView::Null,
        YamlValue::Bool(b) => YamlView::Bool(b),
        YamlValue::Int(i) => YamlView::Int(i),
        YamlValue::Number => YamlView::Number,
        YamlValue::Str(s) => YamlView::Str(s@),
        YamlValue::List(items) => YamlView::List(
            Seq::new(
                items@.len(),
                |i: int|
                    if 0 <= i < items@.len() {
                        yaml_view(items@[i])
                    } else {
                        arbitrary()
                    },
            ),
        ),
        YamlValue::Mapping(entries) => YamlView::Mapping(
            Seq::new(
                entries@.len(),
                |i: int|
                    if 0 <= i < entries@.len() {
                        (yaml_view(entries@[i].key), yaml_view(entries@[i].value))
                    } else {
                        arbitrary()
                    },
            ),
        ),
    }
}

impl DeepView for YamlValue {
    type V = YamlView;

    open spec fn deep_view(&self) -> YamlView {
        yaml_view(*self)
    }
}

impl DeepView for YamlEntry {
    type V = (YamlView, YamlView);

    open spec fn deep_view(&self) -> (YamlView, YamlView) {
        (self.key.deep_view(), self.value.deep_view())
    }
}

/// The model of a list holds the models of its items.
pub proof fn lemma_list_view(items: Vec<YamlValue>)
    ensures
        YamlValue::List(items).deep_view() == YamlView::List(items.deep_view()),
{
    assert(YamlValue::List(items).deep_view()->List_0 =~= items.deep_view());
}

/// The model of a mapping holds the models of its entries.
pub proof fn lemma_map_view(entries: Vec<YamlEntry>)
    ensures
        YamlValue::Mapping(entries).deep_view() == YamlView::Mapping(entries.deep_view()),
{
    assert(YamlValue::Mapping(entries).deep_view()->Mapping_0 =~= entries.deep_view());
}

/// A value as the `serde_yaml` crate holds it.
#[verifier::external_type_specification]
#[verifier::external_body]
pub struct ExYamlValue(serde_yaml::Value);

/// The value that the `serde_yaml` crate reads from a text, or nothing
/// where the text is not one well-formed document.
pub uninterp spec fn yaml_document(text: Seq<char>) -> Option<YamlView>;

/// Copies a value out of `serde_yaml::Value`, variant by variant, and
/// what it holds likewise. An integer is kept where `Number::as_i64`
/// gives one.
#[verifier::external_body]
fn yaml_of(value: &serde_yaml::Value) -> YamlValue {
    match value {
        serde_yaml::Value::Null => YamlValue::Null,
        serde_yaml::Value::Bool(b) => YamlValue::Bool(*b),
        serde_yaml::Value::Number(n) => n.as_i64().map_or(YamlValue::Number, YamlValue::Int),
        serde_yaml::Value::String(s) => YamlValue::Str(s.clone()),
        serde_yaml::Value::Sequence(items) => YamlValue::List(items.iter().map(yaml_of).collect()),
        serde_yaml::Value::Mapping(entries) => YamlValue::Mapping(
            entries.iter().map(|(k, v)| YamlEntry { key: yaml_of(k), value: yaml_of(v) }).collect(),
        ),
    }
}

/// Calls `serde_yaml::from_str` for a `serde_yaml::Value` on `text` and
/// copies the value that it returns. The contract claims that the outcome
/// depends on the text alone: the same text gives the same value, or is
/// refused, every time. The loader beneath the crate calls itself once for
/// each level of nested blocks, without a bound: a text that nests some
/// thousands of levels deep can exhaust the stack, as it can exhaust
/// memory, and the contract speaks of the calls that return.
#[verifier::external_body]
pub(crate) fn read_yaml(text: &str) -> (document: Option<YamlValue>)
    ensures
        document.deep_view() == yaml_document(text@),
{
    match serde_yaml::from_str::<serde_yaml::Value>(text) {
        Ok(value) => Some(yaml_of(&value)),
        Err(_) => None,
    }
}

} // verus!
