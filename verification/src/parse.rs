//! The format parsers: from the text of a configuration file to its value
//! tree.
//!
//! The three formats are read by `serde_json`, `serde_yaml` and `toml`, each
//! into a `serde_json::Value`. What they deliver is then copied, node by
//! node, into a [`Node`].

use crate::error::{ErrorModel, GenerateError};
use crate::value::{
    distinct_keys, item_trees, lemma_array_view, lemma_object_view, member_trees, well_formed,
    Node, Number, Tree,
};
use vstd::prelude::*;
use vstd::string::*;

verus! {

/// Declares `serde_json::Value`, the tree that all three parsers deliver.
/// Nothing of its inside is visible here; it is read through the functions
/// below.
#[verifier::external_type_specification]
#[verifier::external_body]
pub struct ExJsonValue(serde_json::Value);

/// The content of a `serde_json::Value`, as a tree. An integer that fits
/// `i64` is an `Int`, any other integer a `UInt`; a float is held by its
/// bits; the members of an object stand in the order in which its map hands
/// them out.
pub uninterp spec fn document(value: serde_json::Value) -> Tree;

/// What `serde_json::from_str` makes of a text: the document, or the
/// message of the error.
pub uninterp spec fn json_document(text: Seq<char>) -> Result<Tree, Seq<char>>;

/// What `serde_yaml::from_str` makes of a text: the document, or the
/// message of the error.
pub uninterp spec fn yaml_document(text: Seq<char>) -> Result<Tree, Seq<char>>;

/// What `toml::from_str` makes of a text: the document, or the message of
/// the error.
pub uninterp spec fn toml_document(text: Seq<char>) -> Result<Tree, Seq<char>>;

/// Whether `r` is what a parser delivered for a text of which `expected` is
/// made: the same document, or the same message.
pub open spec fn delivers(
    r: Result<serde_json::Value, String>,
    expected: Result<Tree, Seq<char>>,
) -> bool {
    match r {
        Ok(value) => expected == Ok::<Tree, Seq<char>>(document(value)),
        Err(message) => expected == Err::<Tree, Seq<char>>(message@),
    }
}

/// Calls `serde_json::from_str` for a `serde_json::Value`. The outcome
/// depends on the text alone; the contract gives it its name. An error is
/// handed back as the message it displays.
#[verifier::external_body]
fn json_from_str(content: &str) -> (r: Result<serde_json::Value, String>)
    ensures
        delivers(r, json_document(content@)),
{
    match serde_json::from_str::<serde_json::Value>(content) {
        Ok(value) => Ok(value),
        Err(e) => Err(e.to_string()),
    }
}

/// Calls `serde_yaml::from_str` for a `serde_json::Value`. The outcome
/// depends on the text alone; the contract gives it its name. An error is
/// handed back as the message it displays.
#[verifier::external_body]
fn yaml_from_str(content: &str) -> (r: Result<serde_json::Value, String>)
    ensures
        delivers(r, yaml_document(content@)),
{
    match serde_yaml::from_str::<serde_json::Value>(content) {
        Ok(value) => Ok(value),
        Err(e) => Err(e.to_string()),
    }
}

/// Calls `toml::from_str` for a `serde_json::Value`. The outcome depends on
/// the text alone; the contract gives it its name. An error is handed back
/// as the message it displays.
#[verifier::external_body]
fn toml_from_str(content: &str) -> (r: Result<serde_json::Value, String>)
    ensures
        delivers(r, toml_document(content@)),
{
    match toml::from_str::<serde_json::Value>(content) {
        Ok(value) => Ok(value),
        Err(e) => Err(e.to_string()),
    }
}

/// Calls `serde_json::Value::as_bool`: the boolean of a `Bool`, nothing for
/// any other node.
#[verifier::external_body]
fn as_bool(value: &serde_json::Value) -> (r: Option<bool>)
    ensures
        r == (match document(*value) {
            Tree::Bool(b) => Some(b),
            _ => None,
        }),
{
    value.as_bool()
}

/// Calls `serde_json::Value::as_str`: the text of a `String`, nothing for
/// any other node.
#[verifier::external_body]
fn as_text(value: &serde_json::Value) -> (r: Option<&str>)
    ensures
        match document(*value) {
            Tree::Text(s) => r matches Some(text) && text@ == s,
            _ => r is None,
        },
{
    value.as_str()
}

/// Calls `serde_json::Value::as_array`: the elements of an `Array`, nothing
/// for any other node.
#[verifier::external_body]
fn as_array(value: &serde_json::Value) -> (r: Option<&Vec<serde_json::Value>>)
    ensures
        match document(*value) {
            Tree::Array(items) => r matches Some(elements) && elements@.len() == items.len()
                && forall|i: int|
                0 <= i < items.len() ==> document(#[trigger] elements@[i]) == items[i],
            _ => r is None,
        },
{
    value.as_array()
}

/// Calls `serde_json::Value::as_object` and, for an `Object`, collects what
/// `serde_json::Map::iter` hands out: the members in the map's order. The
/// map holds every key once. Nothing for any other node.
#[verifier::external_body]
fn as_members(value: &serde_json::Value) -> (r: Option<Vec<(&String, &serde_json::Value)>>)
    ensures
        match document(*value) {
            Tree::Object(members) => r matches Some(pairs) && pairs@.len() == members.len()
                && forall|i: int|
                0 <= i < members.len() ==> (#[trigger] pairs@[i]).0@ == members[i].0 && document(
                    *pairs@[i].1,
                ) == members[i].1,
            _ => r is None,
        },
        r matches Some(pairs) ==> forall|i: int, j: int|
            0 <= i < j < pairs@.len() ==> (#[trigger] pairs@[i]).0@ != (#[trigger] pairs@[j]).0@,
{
    match value.as_object() {
        Some(map) => Some(map.iter().collect()),
        None => None,
    }
}

/// Calls `serde_json::Value::as_i64`: the value of an integer between
/// `i64::MIN` and `i64::MAX`, nothing for any other node.
#[verifier::external_body]
fn as_i64(value: &serde_json::Value) -> (r: Option<i64>)
    ensures
        r == (match document(*value) {
            Tree::Number(Number::Int(i)) => Some(i),
            _ => None,
        }),
{
    value.as_i64()
}

/// Calls `serde_json::Value::as_u64`: the value of an integer between zero
/// and `u64::MAX`, nothing for any other node.
#[verifier::external_body]
fn as_u64(value: &serde_json::Value) -> (r: Option<u64>)
    ensures
        r == (match document(*value) {
            Tree::Number(Number::Int(i)) => if i >= 0 {
                Some(i as u64)
            } else {
                None
            },
            Tree::Number(Number::UInt(u)) => Some(u),
            _ => None,
        }),
{
    value.as_u64()
}

/// Calls `serde_json::Value::as_f64` and takes the bits of what it returns.
/// Every number has a value there, and nothing else has; for a float it is
/// the float itself.
#[verifier::external_body]
fn as_float_bits(value: &serde_json::Value) -> (r: Option<u64>)
    ensures
        r is Some <==> document(*value) is Number,
        document(*value) matches Tree::Number(Number::Float(bits)) ==> r == Some(bits),
{
    match value.as_f64() {
        Some(x) => Some(x.to_bits()),
        None => None,
    }
}

/// Copies a parsed document into a [`Node`], node by node. The members of
/// an object keep the order in which the map hands them out.
#[verifier::loop_isolation(false)]
fn lift(value: &serde_json::Value) -> (r: Node)
    ensures
        r@ == document(*value),
        well_formed(r@),
    decreases document(*value),
{
    if let Some(b) = as_bool(value) {
        Node::Bool(b)
    } else if let Some(text) = as_text(value) {
        Node::String(String::from_str(text))
    } else if let Some(elements) = as_array(value) {
        let ghost items = document(*value)->Array_0;
        let mut out: Vec<Node> = Vec::new();
        let mut i: usize = 0;
        while i < elements.len()
            invariant
                i <= elements.len(),
                out@.len() == i,
                forall|j: int|
                    #![trigger out@[j]]
                    0 <= j < i ==> out@[j]@ == items[j] && well_formed(items[j]),
            decreases elements.len() - i,
        {
            let node = lift(&elements[i]);
            assert(document(elements@[i as int]) == items[i as int]);
            let ghost before = out@;
            out.push(node);
            assert forall|j: int| 0 <= j < i + 1 implies out@[j]@ == items[j] && well_formed(
                items[j],
            ) by {
                if j < i {
                    assert(out@[j] == before[j]);
                }
            }
            i += 1;
        }
        proof {
            lemma_array_view(out);
            assert(item_trees(out@) =~= items);
        }
        Node::Array(out)
    } else if let Some(pairs) = as_members(value) {
        let ghost members = document(*value)->Object_0;
        let mut out: Vec<(String, Node)> = Vec::new();
        let mut i: usize = 0;
        while i < pairs.len()
            invariant
                i <= pairs.len(),
                out@.len() == i,
                forall|j: int|
                    #![trigger out@[j]]
                    0 <= j < i ==> out@[j].0@ == members[j].0 && out@[j].1@ == members[j].1
                        && well_formed(members[j].1),
            decreases pairs.len() - i,
        {
            let key = pairs[i].0.clone();
            let node = lift(pairs[i].1);
            out.push((key, node));
            i += 1;
        }
        proof {
            lemma_object_view(out);
            assert(member_trees(out@) =~= members);
            assert(distinct_keys(members)) by {
                assert forall|i: int, j: int| 0 <= i < j < members.len() implies members[i].0
                    != members[j].0 by {
                    assert(pairs@[i].0@ == members[i].0);
                    assert(pairs@[j].0@ == members[j].0);
                }
            }
        }
        Node::Object(out)
    } else if let Some(i) = as_i64(value) {
        Node::Number(Number::Int(i))
    } else if let Some(u) = as_u64(value) {
        Node::Number(Number::UInt(u))
    } else if let Some(bits) = as_float_bits(value) {
        Node::Number(Number::Float(bits))
    } else {
        Node::Null
    }
}

/// Whether `format` names one of the supported formats.
pub open spec fn supported(format: Seq<char>) -> bool {
    format == "json"@ || format == "yaml"@ || format == "yml"@ || format == "toml"@
}

/// What the parser selected by `format` makes of `content`. Only defined for
/// a supported format.
pub open spec fn read_as(content: Seq<char>, format: Seq<char>) -> Result<Tree, Seq<char>> {
    if format == "json"@ {
        json_document(content)
    } else if format == "toml"@ {
        toml_document(content)
    } else {
        yaml_document(content)
    }
}

/// What parsing `content` as `format` gives: the document that the selected
/// parser delivers, its message as a parse error, or the refusal of a format
/// that is not supported.
pub open spec fn parsed(content: Seq<char>, format: Seq<char>) -> Result<Tree, ErrorModel> {
    if !supported(format) {
        Err(ErrorModel::UnsupportedFormat { tag: format })
    } else {
        match read_as(content, format) {
            Ok(tree) => Ok(tree),
            Err(cause) => Err(ErrorModel::Parse { format, cause }),
        }
    }
}

/// Whether `r` stands for `expected`: the same document, or the same failure.
pub open spec fn matches_parsed(
    r: Result<Node, GenerateError>,
    expected: Result<Tree, ErrorModel>,
) -> bool {
    match r {
        Ok(node) => expected == Ok::<Tree, ErrorModel>(node@),
        Err(e) => expected == Err::<Tree, ErrorModel>(e@),
    }
}

/// Turns what a parser delivered into the library's own terms.
pub fn parse_outcome(delivered: Result<serde_json::Value, String>, format: &str) -> (r: Result<
    Node,
    GenerateError,
>)
    ensures
        match delivered {
            Ok(value) => r matches Ok(node) && node@ == document(value) && well_formed(node@),
            Err(message) => r matches Err(e) && e@ == (ErrorModel::Parse {
                format: format@,
                cause: message@,
            }),
        },
{
    match delivered {
        Ok(value) => Ok(lift(&value)),
        Err(cause) => Err(GenerateError::Parse { format: String::from_str(format), cause }),
    }
}

/// Parses `content` as a document of the format that `format` names: `json`,
/// `yaml` or `yml`, or `toml`.
///
/// Any other tag is refused as unsupported, whatever the content. Content
/// that the selected parser rejects gives a parse error with the parser's
/// message. In a document that is delivered, no object has two members of
/// one name.
pub fn parse_content(content: &str, format: &str) -> (r: Result<Node, GenerateError>)
    ensures
        matches_parsed(r, parsed(content@, format@)),
        r matches Ok(node) ==> well_formed(node@),
{
    let tag = String::from_str(format);
    if tag == String::from_str("json") {
        parse_outcome(json_from_str(content), format)
    } else if tag == String::from_str("yaml") || tag == String::from_str("yml") {
        proof {
            lemma_format_tags();
        }
        parse_outcome(yaml_from_str(content), format)
    } else if tag == String::from_str("toml") {
        parse_outcome(toml_from_str(content), format)
    } else {
        Err(GenerateError::UnsupportedFormat { tag })
    }
}

/// The four format tags are four different words.
pub proof fn lemma_format_tags()
    ensures
        "json"@ != "yaml"@,
        "json"@ != "yml"@,
        "json"@ != "toml"@,
        "yaml"@ != "yml"@,
        "yaml"@ != "toml"@,
        "yml"@ != "toml"@,
{
    reveal_strlit("json");
    reveal_strlit("yaml");
    reveal_strlit("yml");
    reveal_strlit("toml");
    assert("json"@[0] == 'j');
    assert("yaml"@[0] == 'y');
    assert("toml"@[0] == 't');
    assert("yml"@.len() == 3);
    assert("yaml"@.len() == 4);
}

/// A tag that is no format's name is refused, whatever the content.
pub proof fn lemma_unsupported_format(content: Seq<char>, format: Seq<char>)
    requires
        !supported(format),
    ensures
        parsed(content, format) == Err::<Tree, ErrorModel>(
            ErrorModel::UnsupportedFormat { tag: format },
        ),
{
}

/// `xml` is no format's name: whatever the content, parsing it as `xml` is
/// refused with that tag.
pub proof fn lemma_xml_is_unsupported(content: Seq<char>)
    ensures
        parsed(content, "xml"@) == Err::<Tree, ErrorModel>(
            ErrorModel::UnsupportedFormat { tag: "xml"@ },
        ),
{
    reveal_strlit("xml");
    reveal_strlit("json");
    reveal_strlit("yaml");
    reveal_strlit("yml");
    reveal_strlit("toml");
    assert("xml"@[0] == 'x');
    assert("yml"@[0] == 'y');
    assert("xml"@.len() == 3);
    assert("json"@.len() == 4);
    assert("yaml"@.len() == 4);
    assert("toml"@.len() == 4);
}

} // verus!
