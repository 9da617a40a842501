//! The configuration of a wrapper, and its validation.
//!
//! A configuration document is loosely typed. It is read once into a
//! [`Configuration`], and a document that cannot be read that way is refused
//! with a [`ConfigError`] that names the field at fault.

use vstd::prelude::*;
use yaml_rust::Yaml;
use crate::document::{
    member, node_of, nodes_of, pairs_of, yaml_entries, yaml_is_absent, yaml_is_null, yaml_items,
    yaml_member, yaml_text, Node,
};

verus! {

/// One declared argument of the wrapper: its key, and the token that stands for
/// it on the wrapped program's command line, if it has one.
#[derive(Debug, Clone, PartialEq, Eq)]
pub struct ArgDescriptor {
    pub key: String,
    pub map: Option<String>,
}

/// A validated configuration.
#[derive(Debug, Clone, PartialEq, Eq)]
pub struct Configuration {
    /// Name or path of the wrapped program.
    pub executable: String,
    /// A token for the wrapped program that only interactive use adds.
    pub humanize: Option<String>,
    /// The declared arguments, in the order of their declaration.
    pub args: Vec<ArgDescriptor>,
}

/// Why a document is no configuration.
#[derive(Debug, Clone, Copy, PartialEq, Eq, Structural)]
pub enum ConfigError {
    /// `executable` is missing or is not a string.
    Executable,
    /// `humanize` is neither missing, null nor a string.
    Humanize,
    /// `args` is missing or is not a sequence.
    Args,
    /// The element of `args` at this position is not a mapping with exactly one
    /// key, that key a string.
    ArgEntry(usize),
    /// In the element of `args` at this position, `map` is neither missing, null
    /// nor a string.
    ArgMap(usize),
}

impl ConfigError {
    /// The text that names the field at fault.
    pub open spec fn spec_message(self) -> Seq<char> {
        match self {
            ConfigError::Executable => "malformed configuration: `executable` must be a string"@,
            ConfigError::Humanize => "malformed configuration: `humanize` must be a string"@,
            ConfigError::Args => "malformed configuration: `args` must be a sequence"@,
            ConfigError::ArgEntry(_) =>
                "malformed configuration: each element of `args` must be a mapping with a single string key"@,
            ConfigError::ArgMap(_) =>
                "malformed configuration: `map` of an element of `args` must be a string"@,
        }
    }

    /// The position in `args` of the element at fault, where the error is that
    /// of an element.
    pub open spec fn spec_position(self) -> Option<usize> {
        match self {
            ConfigError::ArgEntry(position) => Some(position),
            ConfigError::ArgMap(position) => Some(position),
            _ => None,
        }
    }

    /// A message that names the field at fault.
    pub fn message(&self) -> (text: String)
        ensures
            text@ == self.spec_message(),
    {
        match self {
            ConfigError::Executable =>
                "malformed configuration: `executable` must be a string".to_owned(),
            ConfigError::Humanize =>
                "malformed configuration: `humanize` must be a string".to_owned(),
            ConfigError::Args => "malformed configuration: `args` must be a sequence".to_owned(),
            ConfigError::ArgEntry(_) =>
                "malformed configuration: each element of `args` must be a mapping with a single string key".to_owned(),
            ConfigError::ArgMap(_) =>
                "malformed configuration: `map` of an element of `args` must be a string".to_owned(),
        }
    }

    /// The position in `args` of the element at fault, where the error is that
    /// of an element.
    pub fn position(&self) -> (position: Option<usize>)
        ensures
            position == self.spec_position(),
    {
        match self {
            ConfigError::ArgEntry(position) => Some(*position),
            ConfigError::ArgMap(position) => Some(*position),
            _ => None,
        }
    }
}

/// The mathematical value of an [`ArgDescriptor`].
pub struct DescriptorView {
    pub key: Seq<char>,
    pub map: Option<Seq<char>>,
}

/// The mathematical value of a [`Configuration`].
pub struct ConfigurationView {
    pub executable: Seq<char>,
    pub humanize: Option<Seq<char>>,
    pub args: Seq<DescriptorView>,
}

/// The characters of an optional string.
pub open spec fn text_of(text: Option<String>) -> Option<Seq<char>> {
    match text {
        Some(s) => Some(s@),
        None => None,
    }
}

/// The values of a run of descriptors.
pub open spec fn descriptor_views(args: Seq<ArgDescriptor>) -> Seq<DescriptorView> {
    Seq::new(args.len(), |i: int| args[i]@)
}

impl View for ArgDescriptor {
    type V = DescriptorView;

    open spec fn view(&self) -> DescriptorView {
        DescriptorView { key: self.key@, map: text_of(self.map) }
    }
}

impl View for Configuration {
    type V = ConfigurationView;

    open spec fn view(&self) -> ConfigurationView {
        ConfigurationView {
            executable: self.executable@,
            humanize: text_of(self.humanize),
            args: descriptor_views(self.args@),
        }
    }
}

/// An optional string field: missing and null both mean that it is not set, a
/// string sets it, and any other node is an error, here `None`.
pub open spec fn optional_text(node: Node) -> Option<Option<Seq<char>>> {
    match node {
        Node::Absent => Some(None),
        Node::Null => Some(None),
        Node::Text(s) => Some(Some(s)),
        _ => None,
    }
}

/// Whether a node is a mapping with exactly one key, that key a string.
pub open spec fn is_single_key(node: Node) -> bool {
    node matches Node::Table(entries) && entries.len() == 1 && entries[0].0 is Text
}

/// The descriptor that the element of `args` at `position` declares.
pub open spec fn descriptor_of(node: Node, position: int) -> Result<DescriptorView, ConfigError> {
    if is_single_key(node) {
        let entry = node->Table_0[0];
        match optional_text(member(entry.1, "map"@)) {
            Some(map) => Ok(DescriptorView { key: entry.0->Text_0, map }),
            None => Err(ConfigError::ArgMap(position as usize)),
        }
    } else {
        Err(ConfigError::ArgEntry(position as usize))
    }
}

/// The descriptors that the elements of `args` declare, or the error of the
/// first element that declares none.
pub open spec fn descriptors_of(items: Seq<Node>) -> Result<Seq<DescriptorView>, ConfigError>
    decreases items.len(),
{
    if items.len() == 0 {
        Ok(Seq::empty())
    } else {
        match descriptors_of(items.drop_last()) {
            Err(e) => Err(e),
            Ok(before) => match descriptor_of(items.last(), items.len() - 1) {
                Ok(d) => Ok(before.push(d)),
                Err(e) => Err(e),
            },
        }
    }
}

/// The configuration that a document holds. The fields are read in the order
/// `executable`, `humanize`, `args`, and the first one at fault decides the
/// error.
pub open spec fn configuration_of(doc: Node) -> Result<ConfigurationView, ConfigError> {
    match member(doc, "executable"@) {
        Node::Text(executable) => match optional_text(member(doc, "humanize"@)) {
            Some(humanize) => match member(doc, "args"@) {
                Node::List(items) => match descriptors_of(items) {
                    Ok(args) => Ok(ConfigurationView { executable, humanize, args }),
                    Err(e) => Err(e),
                },
                _ => Err(ConfigError::Args),
            },
            None => Err(ConfigError::Humanize),
        },
        _ => Err(ConfigError::Executable),
    }
}

/// An error met among the first `k` elements is the error of the whole
/// sequence.
pub proof fn lemma_error_in_prefix(items: Seq<Node>, k: int)
    requires
        0 <= k <= items.len(),
        descriptors_of(items.take(k)) is Err,
    ensures
        descriptors_of(items) == descriptors_of(items.take(k)),
    decreases items.len() - k,
{
    if k < items.len() {
        assert(items.take(k + 1).drop_last() =~= items.take(k));
        lemma_error_in_prefix(items, k + 1);
    } else {
        assert(items.take(k) =~= items);
    }
}

/// The descriptors of a sequence are those of its elements, one for one, and
/// there are descriptors exactly where every element declares one.
pub proof fn law_descriptors_elementwise(items: Seq<Node>)
    ensures
        descriptors_of(items) is Ok <==> forall|i: int|
            0 <= i < items.len() ==> (#[trigger] descriptor_of(items[i], i)) is Ok,
        descriptors_of(items) matches Ok(ds) ==> ds.len() == items.len() && forall|i: int|
            0 <= i < items.len() ==> #[trigger] descriptor_of(items[i], i) == Ok::<
                _,
                ConfigError,
            >(ds[i]),
    decreases items.len(),
{
    if items.len() > 0 {
        let before = items.drop_last();
        law_descriptors_elementwise(before);
        assert forall|i: int| 0 <= i < before.len() implies before[i] == items[i] by {}
        if descriptors_of(items) is Ok {
            assert forall|i: int| 0 <= i < items.len() implies (#[trigger] descriptor_of(
                items[i],
                i,
            )) is Ok by {
                if i < before.len() {
                    assert(descriptor_of(before[i], i) is Ok);
                }
            }
        }
        if forall|i: int| 0 <= i < items.len() ==> (#[trigger] descriptor_of(items[i], i)) is Ok {
            assert forall|i: int| 0 <= i < before.len() implies (#[trigger] descriptor_of(
                before[i],
                i,
            )) is Ok by {
                assert(descriptor_of(items[i], i) is Ok);
            }
            assert(descriptor_of(items[items.len() - 1], items.len() - 1) is Ok);
        }
        if let Ok(ds) = descriptors_of(items) {
            assert forall|i: int| 0 <= i < items.len() implies #[trigger] descriptor_of(
                items[i],
                i,
            ) == Ok::<_, ConfigError>(ds[i]) by {
                if i < before.len() {
                    assert(descriptor_of(before[i], i) is Ok);
                }
            }
        }
    }
}

/// The error of a sequence is that of its first element that declares no
/// descriptor.
pub proof fn law_descriptors_first_error(items: Seq<Node>)
    ensures
        descriptors_of(items) matches Err(e) ==> exists|i: int|
            0 <= i < items.len() && #[trigger] descriptor_of(items[i], i) == Err::<
                DescriptorView,
                _,
            >(e) && forall|j: int| 0 <= j < i ==> (#[trigger] descriptor_of(items[j], j)) is Ok,
    decreases items.len(),
{
    if items.len() > 0 {
        let before = items.drop_last();
        law_descriptors_first_error(before);
        law_descriptors_elementwise(before);
        assert forall|i: int| 0 <= i < before.len() implies before[i] == items[i] by {}
        if let Err(e) = descriptors_of(items) {
            if descriptors_of(before) is Err {
                let i = choose|i: int|
                    0 <= i < before.len() && #[trigger] descriptor_of(before[i], i) == Err::<
                        DescriptorView,
                        _,
                    >(e) && forall|j: int|
                        0 <= j < i ==> (#[trigger] descriptor_of(before[j], j)) is Ok;
                assert(descriptor_of(items[i], i) == Err::<DescriptorView, _>(e));
                assert forall|j: int| 0 <= j < i implies (#[trigger] descriptor_of(
                    items[j],
                    j,
                )) is Ok by {
                    assert(descriptor_of(before[j], j) is Ok);
                }
            } else {
                let i = items.len() - 1;
                assert(descriptor_of(items[i], i) == Err::<DescriptorView, _>(e));
                assert forall|j: int| 0 <= j < i implies (#[trigger] descriptor_of(
                    items[j],
                    j,
                )) is Ok by {
                    assert(descriptor_of(before[j], j) is Ok);
                }
            }
        }
    }
}

/// Reads an optional string field from its node.
fn read_optional(node: &Yaml) -> (field: Option<Option<String>>)
    ensures
        match field {
            Some(text) => optional_text(node_of(*node)) == Some(text_of(text)),
            None => optional_text(node_of(*node)) is None,
        },
{
    match yaml_text(node) {
        Some(s) => Some(Some(s.to_owned())),
        None => if yaml_is_absent(node) || yaml_is_null(node) {
            Some(None)
        } else {
            None
        },
    }
}

/// Reads the descriptor that the element of `args` at `position` declares.
fn read_descriptor(node: &Yaml, position: usize) -> (d: Result<ArgDescriptor, ConfigError>)
    ensures
        match d {
            Ok(d) => descriptor_of(node_of(*node), position as int) == Ok::<_, ConfigError>(d@),
            Err(e) => descriptor_of(node_of(*node), position as int) == Err::<DescriptorView, _>(e),
        },
{
    let entries = match yaml_entries(node) {
        Some(entries) => entries,
        None => {
            return Err(ConfigError::ArgEntry(position));
        },
    };
    if entries.len() != 1 {
        return Err(ConfigError::ArgEntry(position));
    }
    let name: &Yaml = entries[0].0;
    let value: &Yaml = entries[0].1;
    let key = match yaml_text(name) {
        Some(s) => s.to_owned(),
        None => {
            return Err(ConfigError::ArgEntry(position));
        },
    };
    match read_optional(yaml_member(value, "map")) {
        Some(map) => Ok(ArgDescriptor { key, map }),
        None => Err(ConfigError::ArgMap(position)),
    }
}

impl Configuration {
    /// Validates a document and reads the configuration that it holds.
    ///
    /// Succeeds exactly on the documents in which `executable` is a string,
    /// `humanize` is a string, null or missing, `args` is a sequence, and each
    /// element of `args` is a mapping with a single string key whose value has
    /// a `map` that is a string, null or missing. On any other document it
    /// returns the error of the first field at fault.
    #[verifier::loop_isolation(false)]
    pub fn load(doc: &Yaml) -> (loaded: Result<Configuration, ConfigError>)
        ensures
            match loaded {
                Ok(c) => configuration_of(node_of(*doc)) == Ok::<_, ConfigError>(c@),
                Err(e) => configuration_of(node_of(*doc)) == Err::<ConfigurationView, _>(e),
            },
    {
        let executable = match yaml_text(yaml_member(doc, "executable")) {
            Some(s) => s.to_owned(),
            None => {
                return Err(ConfigError::Executable);
            },
        };
        let humanize = match read_optional(yaml_member(doc, "humanize")) {
            Some(humanize) => humanize,
            None => {
                return Err(ConfigError::Humanize);
            },
        };
        let items = match yaml_items(yaml_member(doc, "args")) {
            Some(items) => items,
            None => {
                return Err(ConfigError::Args);
            },
        };
        let ghost nodes = nodes_of(items@);
        let mut args: Vec<ArgDescriptor> = Vec::new();
        let mut i: usize = 0;
        assert(nodes.take(0) =~= Seq::<Node>::empty());
        assert(descriptor_views(args@) =~= Seq::<DescriptorView>::empty());
        while i < items.len()
            invariant
                i <= items.len(),
                nodes == nodes_of(items@),
                descriptors_of(nodes.take(i as int)) == Ok::<_, ConfigError>(
                    descriptor_views(args@),
                ),
            decreases items.len() - i,
        {
            proof {
                assert(nodes.take(i + 1).drop_last() =~= nodes.take(i as int));
                assert(nodes.take(i + 1).last() == node_of(items@[i as int]));
            }
            match read_descriptor(&items[i], i) {
                Ok(d) => {
                    let ghost before = descriptor_views(args@);
                    args.push(d);
                    assert(descriptor_views(args@) =~= before.push(d@));
                },
                Err(e) => {
                    proof {
                        lemma_error_in_prefix(nodes, i + 1);
                    }
                    return Err(e);
                },
            }
            i += 1;
        }
        assert(nodes.take(i as int) =~= nodes);
        Ok(Configuration { executable, humanize, args })
    }
}

} // verus!
