//! Documents of the structured-markup format: a tree of named nodes, each
//! with ordered values, keyed properties and child nodes.

use crate::text::text_eq;
use vstd::prelude::*;

verus! {

/// A value of a node: an argument or the value of a property. Of a
/// floating-point number only its kind is kept.
#[derive(Clone, Debug, PartialEq, Eq)]
pub enum Scalar {
    Int(i64),
    Float,
    Str(String),
    Bool(bool),
    Null,
}

/// Model of a [`Scalar`].
pub ghost enum ScalarView {
    Int(i64),
    Float,
    Str(Seq<char>),
    Bool(bool),
    Null,
}

impl DeepView for Scalar {
    type V = ScalarView;

    open spec fn deep_view(&self) -> ScalarView {
        match *self {
            Scalar::Int(i) => ScalarView::Int(i),
            Scalar::Float => ScalarView::Float,
            Scalar::Str(s) => ScalarView::Str(s@),
            Scalar::Bool(b) => ScalarView::Bool(b),
            Scalar::Null => ScalarView::Null,
        }
    }
}

/// A property of a node.
#[derive(Clone, Debug, PartialEq, Eq)]
pub struct Property {
    pub key: String,
    pub value: Scalar,
}

impl DeepView for Property {
    type V = (Seq<char>, ScalarView);

    open spec fn deep_view(&self) -> (Seq<char>, ScalarView) {
        (self.key@, self.value.deep_view())
    }
}

/// A node of a document.
#[derive(Debug)]
pub struct Element {
    pub name: String,
    pub values: Vec<Scalar>,
    pub properties: Vec<Property>,
    pub children: Vec<Element>,
}

/// Model of an [`Element`]. The properties are a mapping: their order is
/// not part of the model.
pub ghost struct ElementView {
    pub name: Seq<char>,
    pub values: Seq<ScalarView>,
    pub properties: Map<Seq<char>, ScalarView>,
    pub children: Seq<ElementView>,
}

/// The mapping that a list of properties stands for. Where a key occurs
/// more than once, its last property counts.
pub open spec fn property_map(properties: Seq<(Seq<char>, ScalarView)>) -> Map<
    Seq<char>,
    ScalarView,
>
    decreases properties.len(),
{
    if properties.len() == 0 {
        Map::empty()
    } else {
        property_map(properties.drop_last()).insert(properties.last().0, properties.last().1)
    }
}

/// The model of a node: its name, the models of its values, the mapping
/// of its properties, and the models of its child nodes.
pub open spec fn element_view(element: Element) -> ElementView
    decreases element,
{
    ElementView {
        name: element.name@,
        values: element.values.deep_view(),
        properties: property_map(element.properties.deep_view()),
        children: Seq::new(
            element.children@.len(),
            |i: int|
                if 0 <= i < element.children@.len() {
                    element_view(element.children@[i])
                } else {
                    arbitrary()
                },
        ),
    }
}

impl DeepView for Element {
    type V = ElementView;

    open spec fn deep_view(&self) -> ElementView {
        element_view(*self)
    }
}

/// The keys of a property mapping are the keys of the properties.
pub proof fn lemma_property_keys(properties: Seq<(Seq<char>, ScalarView)>, key: Seq<char>)
    ensures
        property_map(properties).contains_key(key) <==> exists|i: int|
            0 <= i < properties.len() && (#[trigger] properties[i]).0 == key,
    decreases properties.len(),
{
    if properties.len() > 0 {
        let earlier = properties.drop_last();
        lemma_property_keys(earlier, key);
        if property_map(properties).contains_key(key) {
            if properties.last().0 == key {
                assert(properties[properties.len() - 1].0 == key);
            } else {
                let i = choose|i: int| 0 <= i < earlier.len() && (#[trigger] earlier[i]).0 == key;
                assert(properties[i].0 == key);
            }
        }
        if exists|i: int| 0 <= i < properties.len() && (#[trigger] properties[i]).0 == key {
            let i = choose|i: int| 0 <= i < properties.len() && (#[trigger] properties[i]).0 == key;
            if i < properties.len() - 1 {
                assert(earlier[i].0 == key);
            }
        }
    }
}

/// The last property of a key decides what the mapping holds for it.
pub proof fn lemma_property_last(properties: Seq<(Seq<char>, ScalarView)>, i: int)
    requires
        0 <= i < properties.len(),
        forall|j: int| i < j < properties.len() ==> properties[j].0 != properties[i].0,
    ensures
        property_map(properties).contains_key(properties[i].0),
        property_map(properties)[properties[i].0] == properties[i].1,
    decreases properties.len(),
{
    if i < properties.len() - 1 {
        lemma_property_last(properties.drop_last(), i);
    }
}

impl Element {
    /// The child nodes of the model are the models of the child nodes.
    pub proof fn lemma_children(&self)
        ensures
            self.deep_view().children == self.children.deep_view(),
            self.deep_view().name == self.name@,
            self.deep_view().values == self.values.deep_view(),
            self.deep_view().properties == property_map(self.properties.deep_view()),
    {
        assert(self.deep_view().children =~= self.children.deep_view());
    }

    /// The first value of the node.
    pub fn first_value(&self) -> (value: Option<&Scalar>)
        ensures
            match value {
                Some(v) => self.deep_view().values.len() > 0 && v.deep_view()
                    == self.deep_view().values[0],
                None => self.deep_view().values.len() == 0,
            },
    {
        if self.values.len() > 0 {
            Some(&self.values[0])
        } else {
            None
        }
    }

    /// The value of the property `key`.
    pub fn property(&self, key: &str) -> (value: Option<&Scalar>)
        ensures
            match value {
                Some(v) => self.deep_view().properties.contains_key(key@) && v.deep_view()
                    == self.deep_view().properties[key@],
                None => !self.deep_view().properties.contains_key(key@),
            },
    {
        let ghost pairs = self.properties.deep_view();
        let mut i: usize = self.properties.len();
        while i > 0
            invariant
                i <= self.properties.len(),
                pairs == self.properties.deep_view(),
                forall|j: int| i <= j < pairs.len() ==> pairs[j].0 != key@,
            decreases i,
        {
            i -= 1;
            if text_eq(self.properties[i].key.as_str(), key) {
                proof {
                    lemma_property_last(pairs, i as int);
                }
                return Some(&self.properties[i].value);
            }
        }
        proof {
            lemma_property_keys(pairs, key@);
        }
        None
    }

    /// Whether the node has no property.
    pub fn has_no_property(&self) -> (none: bool)
        ensures
            none == (forall|k: Seq<char>| !self.deep_view().properties.contains_key(k)),
    {
        proof {
            let pairs = self.properties.deep_view();
            if pairs.len() > 0 {
                lemma_property_keys(pairs, pairs[0].0);
                assert(self.deep_view().properties.contains_key(pairs[0].0));
            } else {
                assert forall|k: Seq<char>| !property_map(pairs).contains_key(k) by {
                    lemma_property_keys(pairs, k);
                }
            }
        }
        self.properties.len() == 0
    }

    /// Whether the node has no property but, at most, `key`.
    pub fn has_no_property_but(&self, key: &str) -> (none: bool)
        ensures
            none == (forall|k: Seq<char>|
                self.deep_view().properties.contains_key(k) ==> k == key@),
    {
        let ghost pairs = self.properties.deep_view();
        let mut i: usize = 0;
        while i < self.properties.len()
            invariant
                i <= self.properties.len(),
                pairs == self.properties.deep_view(),
                forall|j: int| 0 <= j < i ==> pairs[j].0 == key@,
            decreases self.properties.len() - i,
        {
            if !text_eq(self.properties[i].key.as_str(), key) {
                proof {
                    assert(pairs[i as int].0 == self.properties@[i as int].key@);
                    lemma_property_keys(pairs, pairs[i as int].0);
                    assert(self.deep_view().properties.contains_key(pairs[i as int].0));
                }
                return false;
            }
            i += 1;
        }
        proof {
            assert forall|k: Seq<char>| property_map(pairs).contains_key(k) implies k == key@ by {
                lemma_property_keys(pairs, k);
            }
        }
        true
    }
}

/// A node as the `kdl` crate holds it.
#[verifier::external_type_specification]
#[verifier::external_body]
pub struct ExKdlNode(kdl::KdlNode);

/// A value as the `kdl` crate holds it.
#[verifier::external_type_specification]
#[verifier::external_body]
pub struct ExKdlValue(kdl::KdlValue);

/// The document that the `kdl` crate reads from a text: its top-level
/// nodes in the order of the text, or nothing where the text is not a
/// well-formed document.
pub uninterp spec fn markup_document(text: Seq<char>) -> Option<Seq<ElementView>>;

/// Copies a value out of `kdl::KdlValue`, variant by variant.
#[verifier::external_body]
fn scalar_of(value: &kdl::KdlValue) -> Scalar {
    match value {
        kdl::KdlValue::Int(i) => Scalar::Int(*i),
        kdl::KdlValue::Float(_) => Scalar::Float,
        kdl::KdlValue::String(s) => Scalar::Str(s.clone()),
        kdl::KdlValue::Boolean(b) => Scalar::Bool(*b),
        kdl::KdlValue::Null => Scalar::Null,
    }
}

/// Copies a node out of `kdl::KdlNode`, field by field, and its child
/// nodes likewise.
#[verifier::external_body]
fn element_of(node: &kdl::KdlNode) -> Element {
    Element {
        name: node.name.clone(),
        values: node.values.iter().map(scalar_of).collect(),
        properties: node.properties.iter().map(
            |(key, value)| Property { key: key.clone(), value: scalar_of(value) },
        ).collect(),
        children: node.children.iter().map(element_of).collect(),
    }
}

/// Calls `kdl::parse_document` on `text` and copies the nodes that it
/// returns. The contract claims that the outcome depends on the text alone:
/// the same text gives the same nodes, or is refused, every time. The
/// crate hands the properties of a node out in no fixed order; the model
/// of a node holds them as a mapping, in which their order plays no part.
/// The crate's parser calls itself once for each level of nested child
/// nodes, without a bound: a text that nests some thousands of levels deep
/// can exhaust the stack, as it can exhaust memory, and the contract
/// speaks of the calls that return.
#[verifier::external_body]
pub(crate) fn read_markup(text: &str) -> (document: Option<Vec<Element>>)
    ensures
        document.deep_view() == markup_document(text@),
{
    match kdl::parse_document(text) {
        Ok(nodes) => Some(nodes.iter().map(element_of).collect()),
        Err(_) => None,
    }
}

} // verus!
