use vstd::prelude::*;

use vstd::utf8::encode_utf8;
use yaml_rust::{ScanError, Yaml, YamlLoader};

verus! {

/// A node of a YAML document, as the library reads it.
///
/// The variants follow the YAML data model: a real keeps its source text, a
/// mapping keeps its entries in document order.
#[derive(Debug, PartialEq)]
pub enum Node {
    Real(String),
    Integer(i64),
    Str(String),
    Boolean(bool),
    Array(Vec<Node>),
    Hash(Vec<(Node, Node)>),
    Alias(usize),
    Null,
    BadValue,
}

#[verifier::external_type_specification]
#[verifier::external_body]
pub struct ExScanError(ScanError);

#[verifier::external_type_specification]
#[verifier::external_body]
pub struct ExYaml(Yaml);

/// The longest line, in bytes, that a source may have.
pub const MAX_LINE_BYTES: usize = 128;

/// How many bytes stand between the last line feed before index `i` (or the
/// start) and `i`.
pub open spec fn line_run(b: Seq<u8>, i: int) -> int
    decreases i,
{
    if i <= 0 {
        0
    } else if b[i - 1] == 10 {
        0
    } else {
        line_run(b, i - 1) + 1
    }
}

/// An ASCII letter or digit.
pub open spec fn is_ascii_alnum(c: u8) -> bool {
    (48 <= c && c <= 57) || (65 <= c && c <= 90) || (97 <= c && c <= 122)
}

/// The UTF-8 bytes of a source keep YAML nesting shallow: no line is longer
/// than `MAX_LINE_BYTES`, and every `&` directly follows an ASCII letter or
/// digit.
///
/// A nested block collection starts further right than its parent (a block
/// sequence under a mapping key at least on the next level), and flow nesting
/// stops at 255 levels, so short lines bound the depth of the parse. An anchor
/// begins with an `&` that follows a blank, an indicator or a quote; with none,
/// no alias copies a node, so the nodes are no deeper than the text.
pub open spec fn is_shallow(b: Seq<u8>) -> bool {
    &&& forall|i: int| 0 <= i <= b.len() ==> #[trigger] line_run(b, i) <= MAX_LINE_BYTES
    &&& forall|i: int| 0 <= i < b.len() && #[trigger] b[i] == 38 ==> i > 0 && is_ascii_alnum(b[i - 1])
}

/// Whether the source text is shallow in the sense of `is_shallow`.
pub fn is_shallow_text(text: &str) -> (r: bool)
    ensures
        r == is_shallow(encode_utf8(text@)),
{
    let b = text.as_bytes();
    let mut run: usize = 0;
    let mut i: usize = 0;
    while i < b.len()
        invariant
            b@ == encode_utf8(text@),
            i <= b@.len(),
            run == line_run(b@, i as int),
            forall|j: int| 0 <= j <= i ==> #[trigger] line_run(b@, j) <= MAX_LINE_BYTES,
            forall|j: int|
                0 <= j < i && #[trigger] b@[j] == 38 ==> j > 0 && is_ascii_alnum(b@[j - 1]),
        decreases b@.len() - i,
    {
        let c = b[i];
        if c == 38 {
            let follows_alnum = i > 0 && {
                let p = b[i - 1];
                (48 <= p && p <= 57) || (65 <= p && p <= 90) || (97 <= p && p <= 122)
            };
            if !follows_alnum {
                assert(b@[i as int] == 38);
                return false;
            }
        }
        if c == 10 {
            run = 0;
        } else {
            if run == MAX_LINE_BYTES {
                assert(line_run(b@, i + 1) > MAX_LINE_BYTES);
                return false;
            }
            run = run + 1;
        }
        i = i + 1;
    }
    true
}

/// The documents of a YAML text, or `None` where the text is not valid YAML.
pub uninterp spec fn yaml_documents(text: Seq<char>) -> Option<Seq<Node>>;

/// Relies on `yaml_rust::YamlLoader::load_from_str`: the documents of `text`,
/// each converted variant for variant into a `Node`; the outcome depends on
/// the text alone. Parsing and conversion recurse once per level of nesting,
/// so the text must be shallow.
#[verifier::external_body]
pub(crate) fn load_documents(text: &str) -> (r: Result<Vec<Node>, ScanError>)
    requires
        is_shallow(encode_utf8(text@)),
    ensures
        r is Ok <==> yaml_documents(text@) is Some,
        r matches Ok(docs) ==> docs@ == yaml_documents(text@)->0,
{
    YamlLoader::load_from_str(text).map(|docs| docs.iter().map(node_of_yaml).collect())
}

/// Converts a `yaml_rust::Yaml` value variant for variant, keeping the order of
/// mapping entries; used by `load_documents` alone, on the documents of a
/// shallow text, so its recursion is as deep as their nesting.
#[verifier::external_body]
fn node_of_yaml(y: &Yaml) -> Node {
    match y {
        Yaml::Real(s) => Node::Real(s.clone()),
        Yaml::Integer(i) => Node::Integer(*i),
        Yaml::String(s) => Node::Str(s.clone()),
        Yaml::Boolean(b) => Node::Boolean(*b),
        Yaml::Array(a) => Node::Array(a.iter().map(node_of_yaml).collect()),
        Yaml::Hash(h) => Node::Hash(h.iter().map(|(k, v)| (node_of_yaml(k), node_of_yaml(v))).collect()),
        Yaml::Alias(n) => Node::Alias(*n),
        Yaml::Null => Node::Null,
        Yaml::BadValue => Node::BadValue,
    }
}

} // verus!
