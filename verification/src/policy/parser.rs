//! From the text of a configuration file to its flat map.

use vstd::prelude::*;
use crate::flat::insert_all;
use crate::flat::FlatConfigMap;
use crate::flat::Pair;
use crate::text::ascii_lower;
use crate::text::decimal;
use crate::text::opt_text;
use crate::text::eq_ignoring_case;
use crate::text::extension;
use crate::text::extension_of;
use crate::text::usize_to_text;

verus! {

/// A parsed configuration document: a tree whose leaves are null,
/// booleans, numbers and strings. A number is held as its decimal text.
#[derive(Debug)]
pub enum ConfigValue {
    Null,
    Bool(bool),
    Number(String),
    Text(String),
    Array(Vec<ConfigValue>),
    Object(Vec<Member>),
}

/// A field of an object node.
#[derive(Debug)]
pub struct Member {
    pub key: String,
    pub value: ConfigValue,
}

/// The three families of configuration formats.
#[derive(Debug, Clone, Copy, PartialEq, Eq, Structural)]
pub enum ConfigFormat {
    Yaml,
    Json,
    Toml,
}

/// Why a text gave no flat map.
#[derive(Debug, Clone, Copy, PartialEq, Eq, Structural)]
pub enum ConfigError {
    /// The format hint names none of the three families.
    UnsupportedFormat,
    /// The text is not a well-formed document of its format.
    ParseError,
}

/// The path of field `key` of the object at `prefix`.
pub open spec fn member_path(prefix: Seq<char>, key: Seq<char>) -> Seq<char> {
    if prefix.len() == 0 {
        key
    } else {
        prefix + "."@ + key
    }
}

/// The path of item `i` of the array at `prefix`.
pub open spec fn item_path(prefix: Seq<char>, i: nat) -> Seq<char> {
    prefix + "["@ + decimal(i) + "]"@
}

/// The leaves below `v`, each with its path and its text, in the order
/// of the document. `prefix` is the path of `v` itself.
pub open spec fn leaf_pairs(prefix: Seq<char>, v: ConfigValue) -> Seq<Pair>
    decreases v, 0nat,
{
    match v {
        ConfigValue::Null => seq![(prefix, "null"@)],
        ConfigValue::Bool(b) => seq![(prefix, if b { "true"@ } else { "false"@ })],
        ConfigValue::Number(n) => seq![(prefix, n@)],
        ConfigValue::Text(s) => seq![(prefix, s@)],
        ConfigValue::Array(items) => items_pairs(prefix, items, items.len() as nat),
        ConfigValue::Object(members) => members_pairs(prefix, members, members.len() as nat),
    }
}

/// The leaves below the first `n` items of an array.
pub open spec fn items_pairs(prefix: Seq<char>, items: Vec<ConfigValue>, n: nat) -> Seq<Pair>
    decreases items, n,
{
    if n == 0 || n > items.len() {
        Seq::empty()
    } else {
        items_pairs(prefix, items, (n - 1) as nat) + leaf_pairs(
            item_path(prefix, (n - 1) as nat),
            items[n - 1],
        )
    }
}

/// The leaves below the first `n` fields of an object.
pub open spec fn members_pairs(prefix: Seq<char>, members: Vec<Member>, n: nat) -> Seq<Pair>
    decreases members, n,
{
    if n == 0 || n > members.len() {
        Seq::empty()
    } else {
        members_pairs(prefix, members, (n - 1) as nat) + leaf_pairs(
            member_path(prefix, members[n - 1].key@),
            members[n - 1].value,
        )
    }
}

/// The flat map of a document: one entry for each leaf, under its path.
pub open spec fn flat_map_of(v: ConfigValue) -> Map<Seq<char>, Seq<char>> {
    insert_all(Map::empty(), leaf_pairs(Seq::empty(), v))
}

/// Writing two lists one after the other is writing their concatenation.
pub proof fn lemma_insert_all_concat(m: Map<Seq<char>, Seq<char>>, a: Seq<Pair>, b: Seq<Pair>)
    ensures
        insert_all(insert_all(m, a), b) == insert_all(m, a + b),
    decreases b.len(),
{
    if b.len() == 0 {
        assert(a + b =~= a);
    } else {
        lemma_insert_all_concat(m, a, b.drop_last());
        assert((a + b).drop_last() =~= a + b.drop_last());
        assert((a + b).last() == b.last());
    }
}

/// Writing a single pair is one insertion.
pub proof fn lemma_insert_all_one(m: Map<Seq<char>, Seq<char>>, p: Pair)
    ensures
        insert_all(m, seq![p]) == m.insert(p.0, p.1),
{
    assert(seq![p].drop_last() =~= Seq::<Pair>::empty());
    assert(insert_all(m, Seq::<Pair>::empty()) == m);
}

/// Writes the leaves below `value` into `map`, each under its path.
pub fn flatten(prefix: &str, value: &ConfigValue, map: &mut FlatConfigMap)
    ensures
        final(map)@ == insert_all(old(map)@, leaf_pairs(prefix@, *value)),
    decreases value,
{
    let ghost start = map@;
    match value {
        ConfigValue::Object(members) => {
            let mut i: usize = 0;
            while i < members.len()
                invariant
                    i <= members.len(),
                    *value == ConfigValue::Object(*members),
                    map@ == insert_all(start, members_pairs(prefix@, *members, i as nat)),
                decreases members.len() - i,
            {
                let member = &members[i];
                let path = if prefix.is_empty() {
                    member.key.clone()
                } else {
                    let mut p = prefix.to_string();
                    p.append(".");
                    p.append(member.key.as_str());
                    p
                };
                assert(path@ == member_path(prefix@, member.key@));
                assert(value->Object_0 == *members);
                assert(decreases_to!(members => members[i as int]));
                flatten(path.as_str(), &member.value, map);
                proof {
                    lemma_insert_all_concat(
                        start,
                        members_pairs(prefix@, *members, i as nat),
                        leaf_pairs(path@, member.value),
                    );
                }
                i += 1;
            }
        },
        ConfigValue::Array(items) => {
            let mut i: usize = 0;
            while i < items.len()
                invariant
                    i <= items.len(),
                    *value == ConfigValue::Array(*items),
                    map@ == insert_all(start, items_pairs(prefix@, *items, i as nat)),
                decreases items.len() - i,
            {
                let mut path = prefix.to_string();
                path.append("[");
                path.append(usize_to_text(i).as_str());
                path.append("]");
                assert(path@ == item_path(prefix@, i as nat));
                assert(value->Array_0 == *items);
                assert(decreases_to!(items => items[i as int]));
                flatten(path.as_str(), &items[i], map);
                proof {
                    lemma_insert_all_concat(
                        start,
                        items_pairs(prefix@, *items, i as nat),
                        leaf_pairs(path@, items[i as int]),
                    );
                }
                i += 1;
            }
        },
        ConfigValue::Text(s) => {
            proof {
                lemma_insert_all_one(start, (prefix@, s@));
            }
            map.insert(prefix.to_string(), s.clone());
        },
        ConfigValue::Number(n) => {
            proof {
                lemma_insert_all_one(start, (prefix@, n@));
            }
            map.insert(prefix.to_string(), n.clone());
        },
        ConfigValue::Bool(b) => {
            proof {
                lemma_insert_all_one(start, (prefix@, if *b { "true"@ } else { "false"@ }));
            }
            let text = if *b { "true" } else { "false" };
            map.insert(prefix.to_string(), text.to_string());
        },
        ConfigValue::Null => {
            proof {
                lemma_insert_all_one(start, (prefix@, "null"@));
            }
            map.insert(prefix.to_string(), "null".to_string());
        },
    }
}

/// The flat map of a parsed document.
pub fn flatten_document(value: &ConfigValue) -> (map: FlatConfigMap)
    ensures
        map@ == flat_map_of(*value),
{
    let mut map = FlatConfigMap::new();
    proof {
        reveal_strlit("");
        assert(""@ =~= Seq::<char>::empty());
    }
    flatten("", value, &mut map);
    map
}

/// The format that a hint names. Capital and small letters count alike.
pub open spec fn format_of(hint: Seq<char>) -> Option<ConfigFormat> {
    let h = ascii_lower(hint);
    if h == "yml"@ || h == "yaml"@ {
        Some(ConfigFormat::Yaml)
    } else if h == "json"@ {
        Some(ConfigFormat::Json)
    } else if h == "toml"@ {
        Some(ConfigFormat::Toml)
    } else {
        None
    }
}

/// The format that `hint` names, most often a file's extension.
pub fn format_from_hint(hint: &str) -> (r: Option<ConfigFormat>)
    ensures
        r == format_of(hint@),
{
    if eq_ignoring_case(hint, "yml") || eq_ignoring_case(hint, "yaml") {
        Some(ConfigFormat::Yaml)
    } else if eq_ignoring_case(hint, "json") {
        Some(ConfigFormat::Json)
    } else if eq_ignoring_case(hint, "toml") {
        Some(ConfigFormat::Toml)
    } else {
        None
    }
}

/// The document that the JSON parser reads from a text; `None` where it
/// rejects the text.
pub uninterp spec fn json_document(text: Seq<char>) -> Option<ConfigValue>;

/// The document that a YAML text holds in the JSON data model. The name
/// stands for two outside calls in sequence: `serde_yaml::from_str` reads
/// the text into a `serde_yaml::Value`, and `serde_json::to_value` carries
/// that value over. Each of the two depends on its argument alone, so
/// their composition is a function of the text. It is `None` where the
/// first call rejects the text or the second cannot carry the value over.
pub uninterp spec fn yaml_document(text: Seq<char>) -> Option<ConfigValue>;

/// The document that a TOML text holds in the JSON data model. The name
/// stands for two outside calls in sequence: `toml::from_str` reads the
/// text into a `toml::Value`, and `serde_json::to_value` carries that
/// value over. Each of the two depends on its argument alone, so their
/// composition is a function of the text. It is `None` where the first
/// call rejects the text or the second cannot carry the value over.
pub uninterp spec fn toml_document(text: Seq<char>) -> Option<ConfigValue>;

/// The document that a text holds in a given format.
pub open spec fn document_of(text: Seq<char>, format: ConfigFormat) -> Option<ConfigValue> {
    match format {
        ConfigFormat::Yaml => yaml_document(text),
        ConfigFormat::Json => json_document(text),
        ConfigFormat::Toml => toml_document(text),
    }
}

/// What parsing `text` under the format hint `hint` gives.
pub open spec fn parsed(text: Seq<char>, hint: Seq<char>) -> Result<
    Map<Seq<char>, Seq<char>>,
    ConfigError,
> {
    match format_of(hint) {
        None => Err(ConfigError::UnsupportedFormat),
        Some(format) => match document_of(text, format) {
            None => Err(ConfigError::ParseError),
            Some(v) => Ok(flat_map_of(v)),
        },
    }
}

#[verifier::external_type_specification]
#[verifier::external_body]
pub struct ExJsonValue(serde_json::Value);

/// Rebuilds a `serde_json::Value` as a `ConfigValue`, node by node: arrays
/// and objects keep their items and fields in the order in which
/// `serde_json` hands them out, and a number becomes the text that
/// `serde_json::Number` displays. Nothing is stated of the result here;
/// the three parsers below state it.
#[verifier::external_body]
fn tree_of_json(v: serde_json::Value) -> ConfigValue {
    match v {
        serde_json::Value::Null => ConfigValue::Null,
        serde_json::Value::Bool(b) => ConfigValue::Bool(b),
        serde_json::Value::Number(n) => ConfigValue::Number(n.to_string()),
        serde_json::Value::String(s) => ConfigValue::Text(s),
        serde_json::Value::Array(a) => ConfigValue::Array(a.into_iter().map(tree_of_json).collect()),
        serde_json::Value::Object(o) => ConfigValue::Object(
            o.into_iter().map(|(key, v)| Member { key, value: tree_of_json(v) }).collect(),
        ),
    }
}

/// Calls `serde_json::from_str` for a `serde_json::Value`. The contract
/// claims only that the outcome is a function of the text: `json_document`
/// is its name.
#[verifier::external_body]
fn parse_json(text: &str) -> (r: Option<ConfigValue>)
    ensures
        r == json_document(text@),
{
    serde_json::from_str::<serde_json::Value>(text).ok().map(tree_of_json)
}

/// Calls `serde_yaml::from_str` for a `serde_yaml::Value` and hands the
/// value to `serde_json::to_value`: two outside calls in sequence. The
/// contract claims only that the outcome of the two together is a
/// function of the text: `yaml_document` is its name.
#[verifier::external_body]
fn parse_yaml(text: &str) -> (r: Option<ConfigValue>)
    ensures
        r == yaml_document(text@),
{
    let parsed = serde_yaml::from_str::<serde_yaml::Value>(text).ok();
    parsed.and_then(|y| serde_json::to_value(y).ok()).map(tree_of_json)
}

/// Calls `toml::from_str` for a `toml::Value` and hands the value to
/// `serde_json::to_value`: two outside calls in sequence. The contract
/// claims only that the outcome of the two together is a function of the
/// text: `toml_document` is its name.
#[verifier::external_body]
fn parse_toml(text: &str) -> (r: Option<ConfigValue>)
    ensures
        r == toml_document(text@),
{
    let parsed = toml::from_str::<toml::Value>(text).ok();
    parsed.and_then(|t| serde_json::to_value(t).ok()).map(tree_of_json)
}

/// Parses `text` as a document of the given format.
pub fn parse_document(text: &str, format: ConfigFormat) -> (r: Option<ConfigValue>)
    ensures
        r == document_of(text@, format),
{
    match format {
        ConfigFormat::Yaml => parse_yaml(text),
        ConfigFormat::Json => parse_json(text),
        ConfigFormat::Toml => parse_toml(text),
    }
}

/// Parses the text of a configuration file into its flat map. The hint
/// tells the format; a file's extension serves.
pub fn parse_config_content(text: &str, format_hint: &str) -> (r: Result<
    FlatConfigMap,
    ConfigError,
>)
    ensures
        match r {
            Ok(m) => parsed(text@, format_hint@) == Ok::<Map<Seq<char>, Seq<char>>, ConfigError>(
                m@,
            ),
            Err(e) => parsed(text@, format_hint@) == Err::<Map<Seq<char>, Seq<char>>, ConfigError>(
                e,
            ),
        },
{
    match format_from_hint(format_hint) {
        None => Err(ConfigError::UnsupportedFormat),
        Some(format) => match parse_document(text, format) {
            None => Err(ConfigError::ParseError),
            Some(v) => Ok(flatten_document(&v)),
        },
    }
}

/// The format hint that a path gives: its extension, or nothing.
pub open spec fn hint_of(path: Seq<char>) -> Seq<char> {
    match extension(path) {
        Some(e) => e,
        None => Seq::empty(),
    }
}

/// The flat map of a text that was found at `path`; none where there is
/// no text, and none where the text does not parse.
pub open spec fn text_map(text: Option<Seq<char>>, path: Seq<char>) -> Option<
    Map<Seq<char>, Seq<char>>,
> {
    match text {
        Some(t) => match parsed(t, hint_of(path)) {
            Ok(m) => Some(m),
            Err(_) => None,
        },
        None => None,
    }
}

/// The view of an optional flat map.
pub open spec fn opt_map(m: Option<FlatConfigMap>) -> Option<Map<Seq<char>, Seq<char>>> {
    match m {
        Some(x) => Some(x@),
        None => None,
    }
}

/// The flat map of a text found at `path`, if there is a text and it
/// parses.
pub fn map_of_text(text: &Option<String>, path: &str) -> (r: Option<FlatConfigMap>)
    ensures
        opt_map(r) == text_map(opt_text(*text), path@),
{
    match text {
        Some(t) => {
            let hint = match extension_of(path) {
                Some(e) => e,
                None => {
                    proof {
                        reveal_strlit("");
                        assert(""@ =~= Seq::<char>::empty());
                    }
                    ""
                },
            };
            match parse_config_content(t.as_str(), hint) {
                Ok(m) => Some(m),
                Err(_) => None,
            }
        },
        None => None,
    }
}

} // verus!
