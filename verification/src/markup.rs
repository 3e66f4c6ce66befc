//! JSON and YAML documents read and written by `serde_json` and
//! `serde_yaml`, seen through the answers those crates give about the text a
//! document was parsed from.

use vstd::prelude::*;

verus! {

#[verifier::external_type_specification]
#[verifier::external_body]
pub struct ExJsonValue(serde_json::Value);

#[verifier::external_type_specification]
#[verifier::external_body]
pub struct ExYamlValue(serde_yaml::Value);

/// The message of the error `serde_json::from_str` gives for `text` as a
/// `serde_json::Value`, or `None` when it parses.
pub uninterp spec fn json_parse_error(text: Seq<char>) -> Option<Seq<char>>;

/// `serde_json::to_string_pretty` of the value parsed from `text`: the
/// rendering, or the message of its error.
pub uninterp spec fn json_pretty(text: Seq<char>) -> Result<Seq<char>, Seq<char>>;

/// A JSON value together with the text it was parsed from.
pub struct JsonDoc {
    value: serde_json::Value,
    source: Ghost<Seq<char>>,
}

impl View for JsonDoc {
    type V = Seq<char>;

    closed spec fn view(&self) -> Seq<char> {
        self.source@
    }
}

/// Calls `serde_json::from_str` for a `serde_json::Value`; it fails exactly
/// when the text does not parse, with the error's message.
#[verifier::external_body]
pub(crate) fn parse_json(text: &str) -> (r: Result<JsonDoc, String>)
    ensures
        match json_parse_error(text@) {
            None => r matches Ok(d) && d@ == text@,
            Some(m) => r matches Err(e) && e@ == m,
        },
{
    match serde_json::from_str::<serde_json::Value>(text) {
        Ok(value) => Ok(JsonDoc { value, source: Ghost(text@) }),
        Err(e) => Err(e.to_string()),
    }
}

/// Calls `serde_json::to_string_pretty` on the value; the result is named as
/// a function of the text it was parsed from.
#[verifier::external_body]
pub(crate) fn pretty_json(doc: &JsonDoc) -> (r: Result<String, String>)
    ensures
        match json_pretty(doc@) {
            Ok(p) => r matches Ok(s) && s@ == p,
            Err(m) => r matches Err(e) && e@ == m,
        },
{
    serde_json::to_string_pretty(&doc.value).map_err(|e| e.to_string())
}

/// The message of the error `serde_yaml::from_str` gives for `text` as a
/// `serde_yaml::Value`, or `None` when it parses.
pub uninterp spec fn yaml_parse_error(text: Seq<char>) -> Option<Seq<char>>;

/// The value parsed from the text (`None`: a new empty mapping) is a mapping.
pub uninterp spec fn yaml_is_mapping(source: Option<Seq<char>>) -> bool;

/// What the value's entry `key` holds: `None` when there is none,
/// `Some(true)` a mapping, `Some(false)` anything else.
pub uninterp spec fn yaml_entry_kind(source: Option<Seq<char>>, key: Seq<char>) -> Option<bool>;

/// The string the value's entry `key` holds (`Value::get` then `as_str`).
pub uninterp spec fn yaml_text_entry(source: Option<Seq<char>>, key: Seq<char>) -> Option<Seq<char>>;

/// `serde_yaml::to_string` of the value after setting `section.name` to the
/// mapping `item` (creating `section` as an empty mapping when absent): the
/// rendering, or the message of its error.
pub uninterp spec fn yaml_with_entry(
    source: Option<Seq<char>>,
    section: Seq<char>,
    name: Seq<char>,
    item: Seq<(Seq<char>, YamlItemView)>,
) -> Result<Seq<char>, Seq<char>>;

/// A YAML value together with the text it was parsed from (`None` for a new
/// empty mapping).
pub struct YamlDoc {
    value: serde_yaml::Value,
    source: Ghost<Option<Seq<char>>>,
}

impl View for YamlDoc {
    type V = Option<Seq<char>>;

    closed spec fn view(&self) -> Option<Seq<char>> {
        self.source@
    }
}

impl YamlDoc {
    /// The value itself.
    pub fn value(&self) -> &serde_yaml::Value {
        &self.value
    }
}

/// A YAML scalar, empty list or string mapping to write.
#[derive(Debug, Clone)]
pub enum YamlItem {
    Text(String),
    Flag(bool),
    Number(u64),
    EmptyList,
    TextMap(Vec<(String, String)>),
}

pub ghost enum YamlItemView {
    Text(Seq<char>),
    Flag(bool),
    Number(u64),
    EmptyList,
    TextMap(Seq<(Seq<char>, Seq<char>)>),
}

impl View for YamlItem {
    type V = YamlItemView;

    open spec fn view(&self) -> YamlItemView {
        match self {
            YamlItem::Text(s) => YamlItemView::Text(s@),
            YamlItem::Flag(b) => YamlItemView::Flag(*b),
            YamlItem::Number(n) => YamlItemView::Number(*n),
            YamlItem::EmptyList => YamlItemView::EmptyList,
            YamlItem::TextMap(m) => YamlItemView::TextMap(m@.map_values(|p: (String, String)| (p.0@, p.1@))),
        }
    }
}

pub open spec fn item_views(entries: Seq<(String, YamlItem)>) -> Seq<(Seq<char>, YamlItemView)> {
    entries.map_values(|e: (String, YamlItem)| (e.0@, e.1@))
}

/// A YAML mapping built from entries.
pub struct YamlBuilt {
    value: serde_yaml::Value,
    entries: Ghost<Seq<(Seq<char>, YamlItemView)>>,
}

impl View for YamlBuilt {
    type V = Seq<(Seq<char>, YamlItemView)>;

    closed spec fn view(&self) -> Seq<(Seq<char>, YamlItemView)> {
        self.entries@
    }
}

/// Calls `serde_yaml::from_str` for a `serde_yaml::Value`; it fails exactly
/// when the text does not parse, with the error's message.
#[verifier::external_body]
pub fn parse_yaml(text: &str) -> (r: Result<YamlDoc, String>)
    ensures
        match yaml_parse_error(text@) {
            None => r matches Ok(d) && d@ == Some(text@),
            Some(m) => r matches Err(e) && e@ == m,
        },
{
    match serde_yaml::from_str::<serde_yaml::Value>(text) {
        Ok(value) => Ok(YamlDoc { value, source: Ghost(Some(text@)) }),
        Err(e) => Err(e.to_string()),
    }
}

/// `Mapping::new` as a value: a mapping with no entries.
#[verifier::external_body]
pub(crate) fn empty_yaml_mapping() -> (r: YamlDoc)
    ensures
        r@ is None,
        yaml_is_mapping(r@),
        forall|k: Seq<char>| yaml_entry_kind(r@, k) is None,
{
    YamlDoc { value: serde_yaml::Value::Mapping(serde_yaml::Mapping::new()), source: Ghost(None) }
}

/// `Value::is_mapping`.
#[verifier::external_body]
pub(crate) fn yaml_mapping_check(doc: &YamlDoc) -> (b: bool)
    ensures
        b == yaml_is_mapping(doc@),
{
    doc.value.is_mapping()
}

/// `Value::get` of the entry `key`, told apart by `Value::is_mapping`.
#[verifier::external_body]
pub(crate) fn yaml_entry(doc: &YamlDoc, key: &str) -> (r: Option<bool>)
    ensures
        r == yaml_entry_kind(doc@, key@),
{
    doc.value.get(key).map(|v| v.is_mapping())
}

/// `Value::get` of the entry `key`, then `Value::as_str`.
#[verifier::external_body]
pub(crate) fn yaml_text(doc: &YamlDoc, key: &str) -> (r: Option<String>)
    ensures
        match yaml_text_entry(doc@, key@) {
            Some(t) => r matches Some(s) && s@ == t,
            None => r is None,
        },
{
    doc.value.get(key).and_then(|v| v.as_str()).map(String::from)
}

/// Builds a `Value::Mapping` from the entries, one `Value` per item.
#[verifier::external_body]
pub(crate) fn yaml_mapping_of(entries: &[(String, YamlItem)]) -> (r: YamlBuilt)
    ensures
        r@ == item_views(entries@),
{
    let m: serde_yaml::Mapping = entries.iter().map(|(k, item)| (k.as_str().into(), match item {
        YamlItem::Text(s) => s.as_str().into(),
        YamlItem::Flag(b) => (*b).into(),
        YamlItem::Number(n) => (*n).into(),
        YamlItem::EmptyList => serde_yaml::Value::Sequence(Vec::new()),
        YamlItem::TextMap(ps) => ps.iter().map(|(a, b)| (a.as_str().into(), b.as_str().into())).collect::<serde_yaml::Mapping>().into(),
    })).collect();
    YamlBuilt { value: m.into(), entries: Ghost(item_views(entries@)) }
}

/// Sets `section.name` to the item with `Mapping::entry`, `or_insert_with`
/// and `Mapping::insert`, then calls `serde_yaml::to_string`; the result is
/// named as a function of the parsed text, the keys and the item.
#[verifier::external_body]
pub(crate) fn yaml_set_and_render(doc: YamlDoc, section: &str, name: &str, item: YamlBuilt) -> (r: Result<String, String>)
    requires
        yaml_is_mapping(doc@),
        yaml_entry_kind(doc@, section@) != Some(false),
    ensures
        match yaml_with_entry(doc@, section@, name@, item@) {
            Ok(t) => r matches Ok(s) && s@ == t,
            Err(m) => r matches Err(e) && e@ == m,
        },
{
    let mut root = doc.value;
    let map = root.as_mapping_mut().expect("a mapping");
    let slot = map.entry(section.into()).or_insert_with(|| serde_yaml::Mapping::new().into());
    slot.as_mapping_mut().expect("a mapping").insert(name.into(), item.value);
    serde_yaml::to_string(&root).map_err(|e| e.to_string())
}

} // verus!
