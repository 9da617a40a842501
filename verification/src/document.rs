//! The YAML document that a configuration is read from.
//!
//! `yaml_rust::Yaml` is opaque to the verifier. What a node holds is given a
//! mathematical model, [`Node`], and each accessor of the YAML crate that the
//! library calls is declared here with a contract over that model. These
//! contracts are believed, not proved.

use vstd::prelude::*;
use yaml_rust::Yaml;

verus! {

/// What a YAML node holds, as far as the library tells nodes apart.
pub enum Node {
    /// The node that stands for a member that is not there.
    Absent,
    /// YAML `null` or `~`.
    Null,
    /// A string scalar.
    Text(Seq<char>),
    /// A sequence, in document order.
    List(Seq<Node>),
    /// A mapping: its keys with their values, in document order.
    Table(Seq<(Node, Node)>),
    /// Any other node: a number, a boolean or an alias.
    Scalar,
}

#[verifier::external_type_specification]
#[verifier::external_body]
pub struct ExYaml(Yaml);

/// The model of a YAML node.
pub uninterp spec fn node_of(doc: Yaml) -> Node;

/// The value of the first entry whose key is the string `key`.
pub open spec fn entry_value(entries: Seq<(Node, Node)>, key: Seq<char>) -> Node
    decreases entries.len(),
{
    if entries.len() == 0 {
        Node::Absent
    } else if entries[0].0 == Node::Text(key) {
        entries[0].1
    } else {
        entry_value(entries.drop_first(), key)
    }
}

/// The member of a node under a string key: the value that a mapping holds
/// under that key, and the absent node where there is none or the node is no
/// mapping.
pub open spec fn member(node: Node, key: Seq<char>) -> Node {
    match node {
        Node::Table(entries) => entry_value(entries, key),
        _ => Node::Absent,
    }
}

/// The models of a run of nodes.
pub open spec fn nodes_of(items: Seq<Yaml>) -> Seq<Node> {
    Seq::new(items.len(), |i: int| node_of(items[i]))
}

/// The models of a run of key and value pairs.
pub open spec fn pairs_of(entries: Seq<(&Yaml, &Yaml)>) -> Seq<(Node, Node)> {
    Seq::new(entries.len(), |i: int| (node_of(*entries[i].0), node_of(*entries[i].1)))
}

/// `Index<&str>` of `yaml_rust::Yaml`: indexing by a string looks the string up
/// among the keys of a mapping and yields the value found, or the crate's bad
/// value where the key is missing or the node is no mapping. A mapping holds no
/// key twice, so the value found is that of the first entry with this key.
#[verifier::external_body]
pub(crate) fn yaml_member<'a>(doc: &'a Yaml, key: &str) -> (found: &'a Yaml)
    ensures
        node_of(*found) == member(node_of(*doc), key@),
{
    &doc[key]
}

/// `Yaml::as_str`: the text of a string node, and `None` for every other node.
#[verifier::external_body]
pub(crate) fn yaml_text(doc: &Yaml) -> (text: Option<&str>)
    ensures
        match text {
            Some(s) => node_of(*doc) == Node::Text(s@),
            None => !(node_of(*doc) is Text),
        },
{
    doc.as_str()
}

/// `Yaml::is_badvalue`: whether the node is the crate's bad value.
#[verifier::external_body]
pub(crate) fn yaml_is_absent(doc: &Yaml) -> (absent: bool)
    ensures
        absent == (node_of(*doc) is Absent),
{
    doc.is_badvalue()
}

/// `Yaml::is_null`: whether the node is YAML's null.
#[verifier::external_body]
pub(crate) fn yaml_is_null(doc: &Yaml) -> (null: bool)
    ensures
        null == (node_of(*doc) is Null),
{
    doc.is_null()
}

/// `Yaml::as_vec`: the items of a sequence node, and `None` for every other
/// node.
#[verifier::external_body]
pub(crate) fn yaml_items(doc: &Yaml) -> (items: Option<&Vec<Yaml>>)
    ensures
        match items {
            Some(v) => node_of(*doc) == Node::List(nodes_of(v@)),
            None => !(node_of(*doc) is List),
        },
{
    doc.as_vec()
}

/// `Yaml::as_hash`: the entries of a mapping node, and `None` for every other
/// node. The entries are handed out as a vector of pairs, in the order in which
/// the crate's linked hash map walks them, which is the order of insertion.
#[verifier::external_body]
pub(crate) fn yaml_entries(doc: &Yaml) -> (entries: Option<Vec<(&Yaml, &Yaml)>>)
    ensures
        match entries {
            Some(v) => node_of(*doc) == Node::Table(pairs_of(v@)),
            None => !(node_of(*doc) is Table),
        },
{
    doc.as_hash().map(|hash| hash.iter().collect())
}

} // verus!
