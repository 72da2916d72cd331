//! A YAML document tree, as the parameter substitution reads and rewrites it.
//!
//! Scalars other than strings are carried through untouched: numbers keep the
//! YAML library's own number type. A tag is kept as it is displayed, with one
//! leading `!` (so `!param` and `param` name the same tag).
use vstd::prelude::*;

verus! {

/// A YAML number, kept as the YAML library represents it.
#[verifier::external_type_specification]
#[verifier::external_body]
pub struct ExNumber(serde_norway::Number);

/// Cloning a YAML number yields the same number (the number is a plain copy
/// of an integer or float).
pub assume_specification[ <serde_norway::Number as Clone>::clone ](n: &serde_norway::Number) -> (r:
    serde_norway::Number)
    ensures
        r == *n,
;

/// The YAML library's parse error.
#[verifier::external_type_specification]
#[verifier::external_body]
pub struct ExYamlError(serde_norway::Error);

/// The YAML library's document tree.
#[verifier::external_type_specification]
#[verifier::external_body]
pub struct ExValue(serde_norway::Value);

/// A YAML node.
#[derive(Debug, PartialEq)]
pub enum Yaml {
    Null,
    Bool(bool),
    Number(serde_norway::Number),
    String(String),
    Sequence(Vec<Yaml>),
    /// Key/value pairs in document order.
    Mapping(Vec<(Yaml, Yaml)>),
    /// A tagged node: the tag as displayed (`!name`) and the node it tags.
    Tagged(String, Box<Yaml>),
}

/// The mathematical model of a [`Yaml`] node.
pub enum YamlView {
    Null,
    Bool(bool),
    Number(serde_norway::Number),
    Text(Seq<char>),
    List(Seq<YamlView>),
    Pairs(Seq<(YamlView, YamlView)>),
    Tagged(Seq<char>, Box<YamlView>),
}

/// The model of a node.
pub open spec fn yaml_view(y: Yaml) -> YamlView
    decreases y,
{
    match y {
        Yaml::Null => YamlView::Null,
        Yaml::Bool(b) => YamlView::Bool(b),
        Yaml::Number(n) => YamlView::Number(n),
        Yaml::String(s) => YamlView::Text(s@),
        Yaml::Sequence(items) => YamlView::List(items_view(items@)),
        Yaml::Mapping(entries) => YamlView::Pairs(entries_view(entries@)),
        Yaml::Tagged(tag, body) => YamlView::Tagged(tag@, Box::new(yaml_view(*body))),
    }
}

/// The models of a sequence of nodes.
pub open spec fn items_view(items: Seq<Yaml>) -> Seq<YamlView>
    decreases items,
{
    if items.len() == 0 {
        Seq::empty()
    } else {
        items_view(items.drop_last()).push(yaml_view(items.last()))
    }
}

/// The models of a sequence of key/value pairs.
pub open spec fn entries_view(entries: Seq<(Yaml, Yaml)>) -> Seq<(YamlView, YamlView)>
    decreases entries,
{
    if entries.len() == 0 {
        Seq::empty()
    } else {
        entries_view(entries.drop_last()).push(
            (yaml_view(entries.last().0), yaml_view(entries.last().1)),
        )
    }
}

/// What the YAML library reads a text as: its document tree, or `None` when the
/// text is not a single well-formed YAML document.
pub uninterp spec fn yaml_text(text: Seq<char>) -> Option<YamlView>;

/// Reads `text` as one YAML document (`serde_norway::from_str` into a
/// `serde_norway::Value`) and converts the tree node for node. The contract
/// claims only that the outcome is the library's reading of the text, a
/// function of the text alone: the tree on success, an error exactly when the
/// text is not a document.
#[verifier::external_body]
pub(crate) fn parse_yaml(text: &str) -> (r: Result<Yaml, serde_norway::Error>)
    ensures
        match r {
            Ok(v) => yaml_text(text@) == Some(v@),
            Err(_) => yaml_text(text@) is None,
        },
{
    match serde_norway::from_str::<serde_norway::Value>(text) {
        Ok(value) => Ok(yaml_of_value(value)),
        Err(e) => Err(e),
    }
}

/// Converts the YAML library's tree into a [`Yaml`] tree, node for node; a tag
/// is kept as the library displays it.
#[verifier::external_body]
fn yaml_of_value(value: serde_norway::Value) -> Yaml {
    match value {
        serde_norway::Value::Null => Yaml::Null,
        serde_norway::Value::Bool(b) => Yaml::Bool(b),
        serde_norway::Value::Number(n) => Yaml::Number(n),
        serde_norway::Value::String(s) => Yaml::String(s),
        serde_norway::Value::Sequence(items) => Yaml::Sequence(items.into_iter().map(yaml_of_value).collect()),
        serde_norway::Value::Mapping(m) => Yaml::Mapping(
            m.into_iter().map(|(k, v)| (yaml_of_value(k), yaml_of_value(v))).collect(),
        ),
        serde_norway::Value::Tagged(t) => Yaml::Tagged(t.tag.to_string(), Box::new(yaml_of_value(t.value))),
    }
}

impl View for Yaml {
    type V = YamlView;

    open spec fn view(&self) -> YamlView {
        yaml_view(*self)
    }
}


/// The model of a sequence of nodes is, element by element, the model of each.
pub proof fn lemma_items_view(items: Seq<Yaml>)
    ensures
        items_view(items).len() == items.len(),
        forall|k: int| 0 <= k < items.len() ==> #[trigger] items_view(items)[k] == yaml_view(items[k]),
    decreases items.len(),
{
    if items.len() > 0 {
        lemma_items_view(items.drop_last());
    }
}

/// The model of a sequence of pairs is, pair by pair, the models of each side.
pub proof fn lemma_entries_view(entries: Seq<(Yaml, Yaml)>)
    ensures
        entries_view(entries).len() == entries.len(),
        forall|k: int|
            0 <= k < entries.len() ==> #[trigger] entries_view(entries)[k] == (
                yaml_view(entries[k].0),
                yaml_view(entries[k].1),
            ),
    decreases entries.len(),
{
    if entries.len() > 0 {
        lemma_entries_view(entries.drop_last());
    }
}

/// Sequences of nodes with the same models element by element have the same
/// model.
pub proof fn lemma_items_view_ext(a: Seq<Yaml>, b: Seq<Yaml>)
    requires
        a.len() == b.len(),
        forall|k: int| 0 <= k < a.len() ==> #[trigger] yaml_view(a[k]) == yaml_view(b[k]),
    ensures
        items_view(a) == items_view(b),
{
    lemma_items_view(a);
    lemma_items_view(b);
    assert(items_view(a) =~= items_view(b));
}

/// Sequences of pairs with the same models pair by pair have the same model.
pub proof fn lemma_entries_view_ext(a: Seq<(Yaml, Yaml)>, b: Seq<(Yaml, Yaml)>)
    requires
        a.len() == b.len(),
        forall|k: int|
            0 <= k < a.len() ==> #[trigger] yaml_view(a[k].0) == yaml_view(b[k].0) && yaml_view(
                a[k].1,
            ) == yaml_view(b[k].1),
    ensures
        entries_view(a) == entries_view(b),
{
    lemma_entries_view(a);
    lemma_entries_view(b);
    assert(entries_view(a) =~= entries_view(b));
}

impl Yaml {
    /// A copy of the node, with the same model.
    pub fn copy(&self) -> (r: Yaml)
        ensures
            r@ == self@,
        decreases self,
    {
        match self {
            Yaml::Null => Yaml::Null,
            Yaml::Bool(b) => Yaml::Bool(*b),
            Yaml::Number(n) => Yaml::Number(n.clone()),
            Yaml::String(s) => Yaml::String(s.clone()),
            Yaml::Sequence(items) => {
                let mut out: Vec<Yaml> = Vec::new();
                let mut i: usize = 0;
                while i < items.len()
                    invariant
                        *self == Yaml::Sequence(*items),
                        i <= items.len(),
                        out@.len() == i,
                        forall|k: int| 0 <= k < i ==> #[trigger] yaml_view(out@[k]) == yaml_view(items@[k]),
                    decreases items.len() - i,
                {
                    assert(decreases_to!(*self => (*self)->Sequence_0));
                    assert(decreases_to!(*items => items@[i as int]));
                    assert(decreases_to!(*self => items@[i as int]));
                    let c = items[i].copy();
                    out.push(c);
                    i += 1;
                }
                proof {
                    lemma_items_view_ext(out@, items@);
                }
                Yaml::Sequence(out)
            },
            Yaml::Mapping(entries) => {
                let mut out: Vec<(Yaml, Yaml)> = Vec::new();
                let mut i: usize = 0;
                while i < entries.len()
                    invariant
                        *self == Yaml::Mapping(*entries),
                        i <= entries.len(),
                        out@.len() == i,
                        forall|k: int|
                            0 <= k < i ==> #[trigger] yaml_view(out@[k].0) == yaml_view(entries@[k].0)
                                && yaml_view(out@[k].1) == yaml_view(entries@[k].1),
                    decreases entries.len() - i,
                {
                    assert(decreases_to!(*self => (*self)->Mapping_0));
                    assert(decreases_to!(*entries => entries@[i as int]));
                    assert(decreases_to!(*self => entries@[i as int].0));
                    assert(decreases_to!(*self => entries@[i as int].1));
                    let k = entries[i].0.copy();
                    let v = entries[i].1.copy();
                    out.push((k, v));
                    i += 1;
                }
                proof {
                    lemma_entries_view_ext(out@, entries@);
                }
                Yaml::Mapping(out)
            },
            Yaml::Tagged(tag, body) => Yaml::Tagged(tag.clone(), Box::new(body.copy())),
        }
    }
}

} // verus!
