//! A YAML document model: the values the managers read from YAML files.
use vstd::prelude::*;

verus! {

/// A YAML value as the parser gives it; numbers are kept as their text.
#[derive(Debug)]
pub enum YamlValue {
    Null,
    Bool(bool),
    Number(String),
    String(String),
    Sequence(Vec<YamlValue>),
    Mapping(Vec<(YamlValue, YamlValue)>),
    Tagged(String, Box<YamlValue>),
}

pub enum YamlView {
    Null,
    Bool(bool),
    Number(Seq<char>),
    String(Seq<char>),
    Sequence(Seq<YamlView>),
    Mapping(Seq<(YamlView, YamlView)>),
    Tagged(Seq<char>, Box<YamlView>),
}

pub open spec fn yaml_view(v: YamlValue) -> YamlView
    decreases v,
{
    match v {
        YamlValue::Null => YamlView::Null,
        YamlValue::Bool(b) => YamlView::Bool(b),
        YamlValue::Number(s) => YamlView::Number(s@),
        YamlValue::String(s) => YamlView::String(s@),
        YamlValue::Sequence(items) => YamlView::Sequence(
            Seq::new(items@.len(), |i: int| if 0 <= i < items@.len() { yaml_view(items@[i]) } else { YamlView::Null }),
        ),
        YamlValue::Mapping(entries) => YamlView::Mapping(
            Seq::new(entries@.len(), |i: int| if 0 <= i < entries@.len() { (yaml_view(entries@[i].0), yaml_view(entries@[i].1)) } else { (YamlView::Null, YamlView::Null) }),
        ),
        YamlValue::Tagged(t, inner) => YamlView::Tagged(t@, Box::new(yaml_view(*inner))),
    }
}

#[verifier::external_type_specification]
#[verifier::external_body]
pub struct ExSerdeYamlValue(serde_yaml::Value);

/// What `serde_yaml::from_str::<serde_yaml::Value>` makes of a text: the
/// document's value, or the text of its error.
pub uninterp spec fn yaml_parse(text: Seq<char>) -> Result<YamlView, Seq<char>>;

/// Copies a parsed value into the library's model, variant for variant (numbers
/// and tags as their display text).
#[verifier::external_body]
fn from_serde(v: serde_yaml::Value) -> YamlValue {
    match v {
        serde_yaml::Value::Null => YamlValue::Null,
        serde_yaml::Value::Bool(b) => YamlValue::Bool(b),
        serde_yaml::Value::Number(n) => YamlValue::Number(n.to_string()),
        serde_yaml::Value::String(s) => YamlValue::String(s),
        serde_yaml::Value::Sequence(items) => YamlValue::Sequence(items.into_iter().map(from_serde).collect()),
        serde_yaml::Value::Mapping(m) => YamlValue::Mapping(m.into_iter().map(|(k, v)| (from_serde(k), from_serde(v))).collect()),
        serde_yaml::Value::Tagged(t) => YamlValue::Tagged(t.tag.to_string(), Box::new(from_serde(t.value))),
    }
}

/// Parses a YAML document.
/// Trusted: calls `serde_yaml::from_str::<serde_yaml::Value>` and copies the value
/// into the model (or the error into its text); the result is named by `yaml_parse`.
#[verifier::external_body]
pub(crate) fn parse_yaml(text: &str) -> (r: Result<YamlValue, String>)
    ensures
        match r {
            Ok(v) => yaml_parse(text@) == Ok::<YamlView, Seq<char>>(yaml_view(v)),
            Err(e) => yaml_parse(text@) == Err::<YamlView, Seq<char>>(e@),
        },
{
    match serde_yaml::from_str::<serde_yaml::Value>(text) {
        Ok(v) => Ok(from_serde(v)),
        Err(e) => Err(e.to_string()),
    }
}

/// The value under any tags.
pub open spec fn untag(v: YamlView) -> YamlView
    decreases v,
{
    match v {
        YamlView::Tagged(_, inner) => untag(*inner),
        _ => v,
    }
}

/// The text of a string value (under any tags).
pub open spec fn yaml_as_str(v: YamlView) -> Option<Seq<char>> {
    match untag(v) {
        YamlView::String(s) => Some(s),
        _ => None,
    }
}

/// The value of the first entry whose key is the string `key`.
pub open spec fn map_get(entries: Seq<(YamlView, YamlView)>, key: Seq<char>) -> Option<YamlView>
    decreases entries.len(),
{
    if entries.len() == 0 {
        None
    } else if entries[0].0 == YamlView::String(key) {
        Some(entries[0].1)
    } else {
        map_get(entries.drop_first(), key)
    }
}

/// `value.get(key)`: the entry `key` of a mapping (under any tags), else nothing.
pub open spec fn value_get(v: YamlView, key: Seq<char>) -> Option<YamlView> {
    match untag(v) {
        YamlView::Mapping(es) => map_get(es, key),
        _ => None,
    }
}

/// The value under any tags.
pub fn untag_ref(v: &YamlValue) -> (r: &YamlValue)
    ensures
        yaml_view(*r) == untag(yaml_view(*v)),
    decreases v,
{
    match v {
        YamlValue::Tagged(_, inner) => untag_ref(inner),
        _ => v,
    }
}

/// The text of a string value (under any tags).
pub fn as_str(v: &YamlValue) -> (r: Option<&String>)
    ensures
        match r {
            Some(s) => yaml_as_str(yaml_view(*v)) == Some(s@),
            None => yaml_as_str(yaml_view(*v)) is None,
        },
{
    match untag_ref(v) {
        YamlValue::String(s) => Some(s),
        _ => None,
    }
}

/// Whether a value is the string `key` (a mapping key to look up).
fn is_string_key(v: &YamlValue, key: &Vec<char>) -> (r: bool)
    ensures
        r == (yaml_view(*v) == YamlView::String(key@)),
{
    match v {
        YamlValue::String(s) => crate::text::chars_eq(&crate::text::chars_of(s.as_str()), key),
        _ => false,
    }
}

/// Looks up the entry `key` of a mapping's entries.
pub fn mapping_get<'a>(entries: &'a Vec<(YamlValue, YamlValue)>, key: &str) -> (r: Option<&'a YamlValue>)
    ensures
        match r {
            Some(x) => map_get(entries_view(entries@), key@) == Some(yaml_view(*x)),
            None => map_get(entries_view(entries@), key@) is None,
        },
{
    let ghost es = entries_view(entries@);
    let k = crate::text::chars_of(key);
    let mut i: usize = 0;
    assert(es.subrange(0, es.len() as int) =~= es);
    while i < entries.len()
        invariant
            i <= entries@.len(),
            es == entries_view(entries@),
            k@ == key@,
            map_get(es, key@) == map_get(es.subrange(i as int, es.len() as int), key@),
        decreases entries@.len() - i,
    {
        let ghost rest = es.subrange(i as int, es.len() as int);
        assert(rest[0] == es[i as int]);
        assert(rest.drop_first() =~= es.subrange(i + 1, es.len() as int));
        if is_string_key(&entries[i].0, &k) {
            return Some(&entries[i].1);
        }
        i = i + 1;
    }
    None
}

/// `value.get(key)`: the entry `key` of a mapping (under any tags).
pub fn value_get_ref<'a>(v: &'a YamlValue, key: &str) -> (r: Option<&'a YamlValue>)
    ensures
        match r {
            Some(x) => value_get(yaml_view(*v), key@) == Some(yaml_view(*x)),
            None => value_get(yaml_view(*v), key@) is None,
        },
{
    let u = untag_ref(v);
    proof {
        lemma_view_parts(u);
    }
    match u {
        YamlValue::Mapping(entries) => mapping_get(entries, key),
        _ => None,
    }
}

/// The views of a mapping's entries.
pub open spec fn entries_view(entries: Seq<(YamlValue, YamlValue)>) -> Seq<(YamlView, YamlView)> {
    Seq::new(entries.len(), |i: int| (yaml_view(entries[i].0), yaml_view(entries[i].1)))
}

/// The views of a sequence's items.
pub open spec fn items_view(items: Seq<YamlValue>) -> Seq<YamlView> {
    Seq::new(items.len(), |i: int| yaml_view(items[i]))
}

/// How the view of a mapping or sequence is made of the views of its parts.
pub proof fn lemma_view_parts(v: &YamlValue)
    ensures
        match v {
            YamlValue::Mapping(es) => yaml_view(*v) == YamlView::Mapping(entries_view(es@)),
            YamlValue::Sequence(items) => yaml_view(*v) == YamlView::Sequence(items_view(items@)),
            YamlValue::String(s) => yaml_view(*v) == YamlView::String(s@),
            YamlValue::Number(s) => yaml_view(*v) == YamlView::Number(s@),
            _ => !(yaml_view(*v) is Mapping) && !(yaml_view(*v) is Sequence) && !(yaml_view(*v) is String)
                && !(yaml_view(*v) is Number),
        },
{
    match v {
        YamlValue::Mapping(es) => {
            match yaml_view(*v) {
                YamlView::Mapping(x) => {
                    assert(x =~= entries_view(es@));
                },
                _ => {},
            }
        },
        YamlValue::Sequence(items) => {
            match yaml_view(*v) {
                YamlView::Sequence(x) => {
                    assert(x =~= items_view(items@));
                },
                _ => {},
            }
        },
        _ => {},
    }
}

} // verus!
