//! YAML documents, as `serde_yaml` reads them.
//!
//! A document is kept as the outside crate's own value. What the library
//! reads from it, the kind of its root and the scalar under a key, has a
//! name here, so that contracts can speak of it.

use vstd::prelude::*;

verus! {

/// `serde_yaml::Value`, a document as it was read.
#[verifier::external_type_specification]
#[verifier::external_body]
pub struct ExYamlValue(serde_yaml::Value);

/// `serde_yaml::Error`, why a text was not read as a document.
#[verifier::external_type_specification]
#[verifier::external_body]
pub struct ExYamlError(serde_yaml::Error);

/// The kind of value at the root of a document.
#[derive(Clone, Copy, Debug, PartialEq, Eq, Structural)]
pub enum YamlShape {
    /// Nothing, or an explicit null.
    Null,
    /// A mapping from keys to values.
    Mapping,
    /// Anything else: a scalar, a sequence, a tagged value.
    Other,
}

/// The value found under a key of a mapping.
#[derive(Clone, Debug, PartialEq, Eq)]
pub enum YamlField {
    Null,
    Bool(bool),
    /// A number, in the spelling in which the reader gives it back.
    Number(String),
    Text(String),
    /// A sequence, a mapping or a tagged value.
    Other,
}

pub enum YamlFieldView {
    Null,
    Bool(bool),
    Number(Seq<char>),
    Text(Seq<char>),
    Other,
}

impl View for YamlField {
    type V = YamlFieldView;

    open spec fn view(&self) -> YamlFieldView {
        match self {
            YamlField::Null => YamlFieldView::Null,
            YamlField::Bool(b) => YamlFieldView::Bool(*b),
            YamlField::Number(n) => YamlFieldView::Number(n@),
            YamlField::Text(s) => YamlFieldView::Text(s@),
            YamlField::Other => YamlFieldView::Other,
        }
    }
}

impl DeepView for YamlField {
    type V = YamlFieldView;

    open spec fn deep_view(&self) -> YamlFieldView {
        self.view()
    }
}

/// What the library reads from a document: the kind of its root, and for a
/// mapping the values under its string keys.
pub struct YamlDoc {
    pub shape: YamlShape,
    pub fields: Map<Seq<char>, YamlFieldView>,
}

impl YamlDoc {
    /// The value under `key`, if the document has that key.
    pub open spec fn field(self, key: Seq<char>) -> Option<YamlFieldView> {
        if self.fields.contains_key(key) {
            Some(self.fields[key])
        } else {
            None
        }
    }
}

/// What `text` holds as a YAML document, or the reader's message if it is
/// not one.
pub uninterp spec fn yaml_document(text: Seq<char>) -> Result<YamlDoc, Seq<char>>;

/// What a document value holds.
pub uninterp spec fn yaml_contents(value: serde_yaml::Value) -> YamlDoc;

/// The message of a reader's error.
pub uninterp spec fn yaml_error_message(error: serde_yaml::Error) -> Seq<char>;

/// Reads `text` as one YAML document.
///
/// Stands for `serde_yaml::from_str` at the type `serde_yaml::Value`.
/// Claimed: the outcome, a document or an error, depends on the text alone.
#[verifier::external_body]
pub(crate) fn read(text: &str) -> (r: Result<serde_yaml::Value, serde_yaml::Error>)
    ensures
        match r {
            Ok(value) => yaml_document(text@) == Ok::<YamlDoc, Seq<char>>(yaml_contents(value)),
            Err(error) => yaml_document(text@) == Err::<YamlDoc, Seq<char>>(
                yaml_error_message(error),
            ),
        },
{
    serde_yaml::from_str::<serde_yaml::Value>(text)
}

/// The message of `error`.
///
/// Stands for the `Display` text of `serde_yaml::Error`.
#[verifier::external_body]
pub(crate) fn message(error: &serde_yaml::Error) -> (r: String)
    ensures
        r@ == yaml_error_message(*error),
{
    error.to_string()
}

/// The kind of value at the root of `value`.
///
/// Tells the variants of `serde_yaml::Value` apart.
#[verifier::external_body]
pub(crate) fn shape(value: &serde_yaml::Value) -> (r: YamlShape)
    ensures
        r == yaml_contents(*value).shape,
{
    match value {
        serde_yaml::Value::Null => YamlShape::Null,
        serde_yaml::Value::Mapping(_) => YamlShape::Mapping,
        _ => YamlShape::Other,
    }
}

/// The value under the string key `key`.
///
/// Stands for `serde_yaml::Value::get` with a string index, which returns
/// `None` when the value is no mapping or has no such key. A number comes
/// as the text that `serde_yaml::Number` displays.
#[verifier::external_body]
pub(crate) fn field(value: &serde_yaml::Value, key: &str) -> (r: Option<YamlField>)
    ensures
        r.deep_view() == yaml_contents(*value).field(key@),
{
    match value.get(key) {
        None => None,
        Some(serde_yaml::Value::Null) => Some(YamlField::Null),
        Some(serde_yaml::Value::Bool(b)) => Some(YamlField::Bool(*b)),
        Some(serde_yaml::Value::Number(n)) => Some(YamlField::Number(n.to_string())),
        Some(serde_yaml::Value::String(s)) => Some(YamlField::Text(s.clone())),
        Some(_) => Some(YamlField::Other),
    }
}

} // verus!
