use vstd::prelude::*;

use vstd::utf8::encode_utf8;

use crate::document::{is_shallow, is_shallow_text, load_documents, yaml_documents, Node};
use crate::error::DataError;
use crate::table::{EmissionTable, TagRow, TransitionMatrix};
use crate::tag::{lemma_tag_of_code, lemma_tag_of_sound, tag_of, Tag};

verus! {

/// Decodes each pair of a mapping with `f` and gathers the results into a map,
/// a later key overriding an earlier one; the first pair that fails decides the
/// error.
pub open spec fn decode_pairs<K, V>(
    s: Seq<(Node, Node)>,
    f: spec_fn(Node, Node) -> Result<(K, V), DataError>,
) -> Result<Map<K, V>, DataError>
    decreases s.len(),
{
    if s.len() == 0 {
        Ok(Map::empty())
    } else {
        match decode_pairs(s.drop_last(), f) {
            Err(e) => Err(e),
            Ok(m) => match f(s.last().0, s.last().1) {
                Err(e) => Err(e),
                Ok(kv) => Ok(m.insert(kv.0, kv.1)),
            },
        }
    }
}

/// A key that must be a tag: a string that is a tag's code.
pub open spec fn tag_key(n: Node) -> Result<Tag, DataError> {
    match n {
        Node::Str(s) => match tag_of(s@) {
            Some(t) => Ok(t),
            None => Err(DataError::InvalidTag(s)),
        },
        _ => Err(DataError::MalformedDocument),
    }
}

/// A word key: a string as it stands, or a boolean as its literal text.
pub open spec fn word_key(n: Node) -> Result<Seq<char>, DataError> {
    match n {
        Node::Str(s) => Ok(s@),
        Node::Boolean(b) => Ok(
            if b {
                "true"@
            } else {
                "false"@
            },
        ),
        _ => Err(DataError::MalformedDocument),
    }
}

/// A transition probability: a real number, kept as its source text.
pub open spec fn probability_leaf(n: Node) -> Result<String, DataError> {
    match n {
        Node::Real(s) => Ok(s),
        _ => Err(DataError::InvalidValueType),
    }
}

/// An emission count: an integer.
pub open spec fn count_leaf(n: Node) -> Result<i64, DataError> {
    match n {
        Node::Integer(i) => Ok(i),
        _ => Err(DataError::InvalidValueType),
    }
}

/// One entry of a row of the transition matrix: following tag and probability.
pub open spec fn probability_entry() -> spec_fn(Node, Node) -> Result<(Tag, String), DataError> {
    |k: Node, v: Node|
        match tag_key(k) {
            Err(e) => Err(e),
            Ok(t) => match probability_leaf(v) {
                Err(e) => Err(e),
                Ok(p) => Ok((t, p)),
            },
        }
}

/// One entry of a row of the emission table: tag and count.
pub open spec fn count_entry() -> spec_fn(Node, Node) -> Result<(Tag, i64), DataError> {
    |k: Node, v: Node|
        match tag_key(k) {
            Err(e) => Err(e),
            Ok(t) => match count_leaf(v) {
                Err(e) => Err(e),
                Ok(c) => Ok((t, c)),
            },
        }
}

/// A row of the transition matrix: a mapping from tags to probabilities.
pub open spec fn probability_row(n: Node) -> Result<Map<Tag, String>, DataError> {
    match n {
        Node::Hash(ps) => decode_pairs(ps@, probability_entry()),
        _ => Err(DataError::MalformedDocument),
    }
}

/// A row of the emission table: a mapping from tags to counts.
pub open spec fn count_row(n: Node) -> Result<Map<Tag, i64>, DataError> {
    match n {
        Node::Hash(ps) => decode_pairs(ps@, count_entry()),
        _ => Err(DataError::MalformedDocument),
    }
}

/// One entry of the transition matrix: prior tag and its row.
pub open spec fn transition_entry() -> spec_fn(Node, Node) -> Result<
    (Tag, Map<Tag, String>),
    DataError,
> {
    |k: Node, v: Node|
        match tag_key(k) {
            Err(e) => Err(e),
            Ok(t) => match probability_row(v) {
                Err(e) => Err(e),
                Ok(row) => Ok((t, row)),
            },
        }
}

/// One entry of the emission table: word and its row.
pub open spec fn emission_entry() -> spec_fn(Node, Node) -> Result<
    (Seq<char>, Map<Tag, i64>),
    DataError,
> {
    |k: Node, v: Node|
        match word_key(k) {
            Err(e) => Err(e),
            Ok(w) => match count_row(v) {
                Err(e) => Err(e),
                Ok(row) => Ok((w, row)),
            },
        }
}

/// The entries of the one mapping that a source must consist of: exactly one
/// document, and that document a mapping.
pub open spec fn single_mapping(docs: Seq<Node>) -> Result<Seq<(Node, Node)>, DataError> {
    if docs.len() == 1 {
        match docs[0] {
            Node::Hash(ps) => Ok(ps@),
            _ => Err(DataError::MalformedDocument),
        }
    } else {
        Err(DataError::MalformedDocument)
    }
}

/// The transition matrix that the documents of a source describe.
pub open spec fn transitions_of(docs: Seq<Node>) -> Result<Map<Tag, Map<Tag, String>>, DataError> {
    match single_mapping(docs) {
        Err(e) => Err(e),
        Ok(ps) => decode_pairs(ps, transition_entry()),
    }
}

/// The emission table that the documents of a source describe.
pub open spec fn emissions_of(docs: Seq<Node>) -> Result<Map<Seq<char>, Map<Tag, i64>>, DataError> {
    match single_mapping(docs) {
        Err(e) => Err(e),
        Ok(ps) => decode_pairs(ps, emission_entry()),
    }
}

/// The transition matrix of a YAML text; text that is not YAML, or not
/// shallow (see `is_shallow`), is malformed.
pub open spec fn transitions_of_text(text: Seq<char>) -> Result<
    Map<Tag, Map<Tag, String>>,
    DataError,
> {
    if !is_shallow(encode_utf8(text)) {
        Err(DataError::MalformedDocument)
    } else {
        match yaml_documents(text) {
            Some(docs) => transitions_of(docs),
            None => Err(DataError::MalformedDocument),
        }
    }
}

/// The emission table of a YAML text; text that is not YAML, or not shallow
/// (see `is_shallow`), is malformed.
pub open spec fn emissions_of_text(text: Seq<char>) -> Result<
    Map<Seq<char>, Map<Tag, i64>>,
    DataError,
> {
    if !is_shallow(encode_utf8(text)) {
        Err(DataError::MalformedDocument)
    } else {
        match yaml_documents(text) {
            Some(docs) => emissions_of(docs),
            None => Err(DataError::MalformedDocument),
        }
    }
}

/// Once a prefix of the pairs fails, the whole fails with the same error.
pub proof fn lemma_decode_prefix_error<K, V>(
    s: Seq<(Node, Node)>,
    i: int,
    f: spec_fn(Node, Node) -> Result<(K, V), DataError>,
)
    requires
        0 <= i <= s.len(),
        decode_pairs(s.take(i), f) is Err,
    ensures
        decode_pairs(s, f) == decode_pairs(s.take(i), f),
    decreases s.len(),
{
    if i < s.len() {
        assert(s.drop_last().take(i) =~= s.take(i));
        lemma_decode_prefix_error(s.drop_last(), i, f);
    } else {
        assert(s.take(i) =~= s);
    }
}

/// Extending a decoded prefix by one pair.
proof fn lemma_decode_step<K, V>(
    s: Seq<(Node, Node)>,
    i: int,
    f: spec_fn(Node, Node) -> Result<(K, V), DataError>,
)
    requires
        0 <= i < s.len(),
    ensures
        decode_pairs(s.take(i + 1), f) == match decode_pairs(s.take(i), f) {
            Err(e) => Err(e),
            Ok(m) => match f(s[i].0, s[i].1) {
                Err(e) => Err(e),
                Ok(kv) => Ok(m.insert(kv.0, kv.1)),
            },
        },
{
    assert(s.take(i + 1).drop_last() =~= s.take(i));
    assert(s.take(i + 1).last() == s[i]);
}

fn decode_tag_key(n: &Node) -> (r: Result<Tag, DataError>)
    ensures
        r == tag_key(*n),
{
    match n {
        Node::Str(s) => match Tag::from_str(s.as_str()) {
            Ok(t) => {
                proof {
                    lemma_tag_of_code(t);
                }
                Ok(t)
            },
            Err(_) => {
                proof {
                    if tag_of(s@) is Some {
                        lemma_tag_of_sound(s@);
                    }
                }
                Err(DataError::InvalidTag(s.clone()))
            },
        },
        _ => Err(DataError::MalformedDocument),
    }
}

fn decode_word_key(n: &Node) -> (r: Result<String, DataError>)
    ensures
        match r {
            Ok(w) => word_key(*n) == Ok::<Seq<char>, DataError>(w@),
            Err(e) => word_key(*n) == Err::<Seq<char>, DataError>(e),
        },
{
    match n {
        Node::Str(s) => Ok(s.clone()),
        Node::Boolean(b) => {
            if *b {
                Ok(String::from_str("true"))
            } else {
                Ok(String::from_str("false"))
            }
        },
        _ => Err(DataError::MalformedDocument),
    }
}

fn decode_probability(n: &Node) -> (r: Result<String, DataError>)
    ensures
        r == probability_leaf(*n),
{
    match n {
        Node::Real(s) => Ok(s.clone()),
        _ => Err(DataError::InvalidValueType),
    }
}

fn decode_count(n: &Node) -> (r: Result<i64, DataError>)
    ensures
        r == count_leaf(*n),
{
    match n {
        Node::Integer(i) => Ok(*i),
        _ => Err(DataError::InvalidValueType),
    }
}

fn decode_probability_row(n: &Node) -> (r: Result<TagRow<String>, DataError>)
    ensures
        match r {
            Ok(row) => row.wf() && probability_row(*n) == Ok::<Map<Tag, String>, DataError>(row@),
            Err(e) => probability_row(*n) == Err::<Map<Tag, String>, DataError>(e),
        },
{
    match n {
        Node::Hash(ps) => {
            let mut row: TagRow<String> = TagRow::new();
            let mut i: usize = 0;
            proof {
                assert(ps@.take(0) =~= Seq::<(Node, Node)>::empty());
            }
            while i < ps.len()
                invariant
                    probability_row(*n) == decode_pairs(ps@, probability_entry()),
                    i <= ps@.len(),
                    row.wf(),
                    decode_pairs(ps@.take(i as int), probability_entry()) == Ok::<
                        Map<Tag, String>,
                        DataError,
                    >(row@),
                decreases ps@.len() - i,
            {
                proof {
                    lemma_decode_step(ps@, i as int, probability_entry());
                }
                let key = decode_tag_key(&ps[i].0);
                let val = decode_probability(&ps[i].1);
                let entry = match (key, val) {
                    (Ok(t), Ok(p)) => Ok((t, p)),
                    (Err(e), _) => Err(e),
                    (Ok(_), Err(e)) => Err(e),
                };
                match entry {
                    Ok((t, p)) => {
                        row.insert(t, p);
                    },
                    Err(e) => {
                        proof {
                            lemma_decode_prefix_error(ps@, i + 1, probability_entry());
                        }
                        return Err(e);
                    },
                }
                i = i + 1;
            }
            proof {
                assert(ps@.take(ps@.len() as int) =~= ps@);
            }
            Ok(row)
        },
        _ => Err(DataError::MalformedDocument),
    }
}

fn decode_count_row(n: &Node) -> (r: Result<TagRow<i64>, DataError>)
    ensures
        match r {
            Ok(row) => row.wf() && count_row(*n) == Ok::<Map<Tag, i64>, DataError>(row@),
            Err(e) => count_row(*n) == Err::<Map<Tag, i64>, DataError>(e),
        },
{
    match n {
        Node::Hash(ps) => {
            let mut row: TagRow<i64> = TagRow::new();
            let mut i: usize = 0;
            proof {
                assert(ps@.take(0) =~= Seq::<(Node, Node)>::empty());
            }
            while i < ps.len()
                invariant
                    count_row(*n) == decode_pairs(ps@, count_entry()),
                    i <= ps@.len(),
                    row.wf(),
                    decode_pairs(ps@.take(i as int), count_entry()) == Ok::<Map<Tag, i64>, DataError>(
                        row@,
                    ),
                decreases ps@.len() - i,
            {
                proof {
                    lemma_decode_step(ps@, i as int, count_entry());
                }
                let key = decode_tag_key(&ps[i].0);
                let val = decode_count(&ps[i].1);
                let entry = match (key, val) {
                    (Ok(t), Ok(c)) => Ok((t, c)),
                    (Err(e), _) => Err(e),
                    (Ok(_), Err(e)) => Err(e),
                };
                match entry {
                    Ok((t, c)) => {
                        row.insert(t, c);
                    },
                    Err(e) => {
                        proof {
                            lemma_decode_prefix_error(ps@, i + 1, count_entry());
                        }
                        return Err(e);
                    },
                }
                i = i + 1;
            }
            proof {
                assert(ps@.take(ps@.len() as int) =~= ps@);
            }
            Ok(row)
        },
        _ => Err(DataError::MalformedDocument),
    }
}

impl TransitionMatrix {
    /// Decodes the transition matrix from the documents of a source: exactly
    /// one document, a mapping from prior tags to mappings from following tags
    /// to real numbers.
    pub fn from_documents(docs: &Vec<Node>) -> (r: Result<TransitionMatrix, DataError>)
        ensures
            match r {
                Ok(m) => m.wf() && transitions_of(docs@) == Ok::<
                    Map<Tag, Map<Tag, String>>,
                    DataError,
                >(m@),
                Err(e) => transitions_of(docs@) == Err::<Map<Tag, Map<Tag, String>>, DataError>(e),
            },
    {
        if docs.len() != 1 {
            return Err(DataError::MalformedDocument);
        }
        match &docs[0] {
            Node::Hash(ps) => {
                let mut m = TransitionMatrix::new();
                let mut i: usize = 0;
                proof {
                    assert(ps@.take(0) =~= Seq::<(Node, Node)>::empty());
                }
                while i < ps.len()
                    invariant
                        transitions_of(docs@) == decode_pairs(ps@, transition_entry()),
                        i <= ps@.len(),
                        m.wf(),
                        decode_pairs(ps@.take(i as int), transition_entry()) == Ok::<
                            Map<Tag, Map<Tag, String>>,
                            DataError,
                        >(m@),
                    decreases ps@.len() - i,
                {
                    proof {
                        lemma_decode_step(ps@, i as int, transition_entry());
                    }
                    let key = decode_tag_key(&ps[i].0);
                    let entry = match key {
                        Ok(t) => match decode_probability_row(&ps[i].1) {
                            Ok(row) => Ok((t, row)),
                            Err(e) => Err(e),
                        },
                        Err(e) => Err(e),
                    };
                    match entry {
                        Ok((t, row)) => {
                            m.insert(t, row);
                        },
                        Err(e) => {
                            proof {
                                lemma_decode_prefix_error(ps@, i + 1, transition_entry());
                            }
                            return Err(e);
                        },
                    }
                    i = i + 1;
                }
                proof {
                    assert(ps@.take(ps@.len() as int) =~= ps@);
                }
                Ok(m)
            },
            _ => Err(DataError::MalformedDocument),
        }
    }

    /// Loads the transition matrix from YAML text; text that is not YAML, or
    /// not shallow (see `is_shallow`), is a malformed document.
    pub fn load(text: &str) -> (r: Result<TransitionMatrix, DataError>)
        ensures
            match r {
                Ok(m) => m.wf() && transitions_of_text(text@) == Ok::<
                    Map<Tag, Map<Tag, String>>,
                    DataError,
                >(m@),
                Err(e) => transitions_of_text(text@) == Err::<Map<Tag, Map<Tag, String>>, DataError>(e),
            },
    {
        if !is_shallow_text(text) {
            return Err(DataError::MalformedDocument);
        }
        match load_documents(text) {
            Ok(docs) => TransitionMatrix::from_documents(&docs),
            Err(_) => Err(DataError::MalformedDocument),
        }
    }
}

impl EmissionTable {
    /// Decodes the emission table from the documents of a source: exactly one
    /// document, a mapping from words (strings, or booleans read as their
    /// text) to mappings from tags to integers.
    pub fn from_documents(docs: &Vec<Node>) -> (r: Result<EmissionTable, DataError>)
        ensures
            match r {
                Ok(t) => t.wf() && emissions_of(docs@) == Ok::<
                    Map<Seq<char>, Map<Tag, i64>>,
                    DataError,
                >(t@),
                Err(e) => emissions_of(docs@) == Err::<Map<Seq<char>, Map<Tag, i64>>, DataError>(e),
            },
    {
        if docs.len() != 1 {
            return Err(DataError::MalformedDocument);
        }
        match &docs[0] {
            Node::Hash(ps) => {
                let mut table = EmissionTable::new();
                let mut i: usize = 0;
                proof {
                    assert(ps@.take(0) =~= Seq::<(Node, Node)>::empty());
                }
                while i < ps.len()
                    invariant
                        emissions_of(docs@) == decode_pairs(ps@, emission_entry()),
                        i <= ps@.len(),
                        table.wf(),
                        decode_pairs(ps@.take(i as int), emission_entry()) == Ok::<
                            Map<Seq<char>, Map<Tag, i64>>,
                            DataError,
                        >(table@),
                    decreases ps@.len() - i,
                {
                    proof {
                        lemma_decode_step(ps@, i as int, emission_entry());
                    }
                    let key = decode_word_key(&ps[i].0);
                    let entry = match key {
                        Ok(w) => match decode_count_row(&ps[i].1) {
                            Ok(row) => Ok((w, row)),
                            Err(e) => Err(e),
                        },
                        Err(e) => Err(e),
                    };
                    match entry {
                        Ok((w, row)) => {
                            table.insert(w, row);
                        },
                        Err(e) => {
                            proof {
                                lemma_decode_prefix_error(ps@, i + 1, emission_entry());
                            }
                            return Err(e);
                        },
                    }
                    i = i + 1;
                }
                proof {
                    assert(ps@.take(ps@.len() as int) =~= ps@);
                }
                Ok(table)
            },
            _ => Err(DataError::MalformedDocument),
        }
    }

    /// Loads the emission table from YAML text; text that is not YAML, or not
    /// shallow (see `is_shallow`), is a malformed document.
    pub fn load(text: &str) -> (r: Result<EmissionTable, DataError>)
        ensures
            match r {
                Ok(t) => t.wf() && emissions_of_text(text@) == Ok::<
                    Map<Seq<char>, Map<Tag, i64>>,
                    DataError,
                >(t@),
                Err(e) => emissions_of_text(text@) == Err::<Map<Seq<char>, Map<Tag, i64>>, DataError>(e),
            },
    {
        if !is_shallow_text(text) {
            return Err(DataError::MalformedDocument);
        }
        match load_documents(text) {
            Ok(docs) => EmissionTable::from_documents(&docs),
            Err(_) => Err(DataError::MalformedDocument),
        }
    }
}

/// The entries of a mapping node; none for any other node.
pub open spec fn entries_of(n: Node) -> Seq<(Node, Node)> {
    match n {
        Node::Hash(ps) => ps@,
        _ => Seq::empty(),
    }
}

/// Every key of the entries reads as a tag.
pub open spec fn keys_are_tags(ps: Seq<(Node, Node)>) -> bool {
    forall|a: int| 0 <= a < ps.len() ==> tag_key(#[trigger] ps[a].0) is Ok
}

/// Where each pair either decodes or fails with `e0`, the whole either
/// decodes or fails with `e0`, and it fails where some pair fails.
pub proof fn lemma_decode_single_error<K, V>(
    s: Seq<(Node, Node)>,
    f: spec_fn(Node, Node) -> Result<(K, V), DataError>,
    e0: DataError,
)
    requires
        forall|a: int|
            0 <= a < s.len() ==> (#[trigger] f(s[a].0, s[a].1) is Ok || f(s[a].0, s[a].1) == Err::<
                (K, V),
                DataError,
            >(e0)),
    ensures
        decode_pairs(s, f) is Ok || decode_pairs(s, f) == Err::<Map<K, V>, DataError>(e0),
        (exists|a: int| 0 <= a < s.len() && #[trigger] f(s[a].0, s[a].1) is Err) ==> decode_pairs(
            s,
            f,
        ) == Err::<Map<K, V>, DataError>(e0),
    decreases s.len(),
{
    if s.len() > 0 {
        let p = s.drop_last();
        assert forall|a: int| 0 <= a < p.len() implies (#[trigger] f(p[a].0, p[a].1) is Ok || f(
            p[a].0,
            p[a].1,
        ) == Err::<(K, V), DataError>(e0)) by {
            assert(p[a] == s[a]);
        }
        lemma_decode_single_error(p, f, e0);
        assert(f(s[s.len() - 1].0, s[s.len() - 1].1) is Ok || f(s[s.len() - 1].0, s[s.len() - 1].1)
            == Err::<(K, V), DataError>(e0));
        if exists|a: int| 0 <= a < s.len() && #[trigger] f(s[a].0, s[a].1) is Err {
            let a = choose|a: int| 0 <= a < s.len() && #[trigger] f(s[a].0, s[a].1) is Err;
            if a < s.len() - 1 {
                assert(p[a] == s[a]);
            }
        }
    }
}

/// Where the pairs decode, each pair decodes and its key is in the map.
pub proof fn lemma_decode_keys<K, V>(
    s: Seq<(Node, Node)>,
    f: spec_fn(Node, Node) -> Result<(K, V), DataError>,
    i: int,
)
    requires
        decode_pairs(s, f) is Ok,
        0 <= i < s.len(),
    ensures
        f(s[i].0, s[i].1) is Ok,
        decode_pairs(s, f)->Ok_0.contains_key(f(s[i].0, s[i].1)->Ok_0.0),
    decreases s.len(),
{
    if i < s.len() - 1 {
        let p = s.drop_last();
        assert(p[i] == s[i]);
        lemma_decode_keys(p, f, i);
    }
}

/// A source whose one document is not a mapping is malformed, as a
/// transition source and as an emission source.
pub proof fn lemma_non_mapping_document(docs: Seq<Node>)
    requires
        docs.len() == 1,
        !(docs[0] is Hash),
    ensures
        transitions_of(docs) == Err::<Map<Tag, Map<Tag, String>>, DataError>(
            DataError::MalformedDocument,
        ),
        emissions_of(docs) == Err::<Map<Seq<char>, Map<Tag, i64>>, DataError>(
            DataError::MalformedDocument,
        ),
{
}

/// A transition source whose one document is a mapping keyed by tags, whose
/// values are all mappings keyed by tags, and in which some leaf is not a real
/// number, fails with `InvalidValueType`.
pub proof fn lemma_non_real_leaf(docs: Seq<Node>, i: int, j: int)
    requires
        docs.len() == 1,
        docs[0] is Hash,
        keys_are_tags(entries_of(docs[0])),
        forall|a: int|
            0 <= a < entries_of(docs[0]).len() ==> (#[trigger] entries_of(docs[0])[a]).1 is Hash
                && keys_are_tags(entries_of(entries_of(docs[0])[a].1)),
        0 <= i < entries_of(docs[0]).len(),
        0 <= j < entries_of(entries_of(docs[0])[i].1).len(),
        !(entries_of(entries_of(docs[0])[i].1)[j].1 is Real),
    ensures
        transitions_of(docs) == Err::<Map<Tag, Map<Tag, String>>, DataError>(
            DataError::InvalidValueType,
        ),
{
    let ps = entries_of(docs[0]);
    let e0 = DataError::InvalidValueType;
    assert forall|a: int| 0 <= a < ps.len() implies (#[trigger] transition_entry()(
        ps[a].0,
        ps[a].1,
    ) is Ok || transition_entry()(ps[a].0, ps[a].1) == Err::<(Tag, Map<Tag, String>), DataError>(
        e0,
    )) && (a == i ==> transition_entry()(ps[a].0, ps[a].1) is Err) by {
        let row = entries_of(ps[a].1);
        assert(tag_key(ps[a].0) is Ok);
        assert forall|b: int| 0 <= b < row.len() implies (#[trigger] probability_entry()(
            row[b].0,
            row[b].1,
        ) is Ok || probability_entry()(row[b].0, row[b].1) == Err::<(Tag, String), DataError>(
            e0,
        )) by {
            assert(tag_key(row[b].0) is Ok);
        }
        lemma_decode_single_error(row, probability_entry(), e0);
        if a == i {
            assert(tag_key(row[j].0) is Ok);
            assert(probability_entry()(row[j].0, row[j].1) is Err);
        }
    }
    lemma_decode_single_error(ps, transition_entry(), e0);
    assert(transition_entry()(ps[i].0, ps[i].1) is Err);
}

/// An emission source with a key that is the boolean `true` has, once loaded,
/// an entry for the word "true".
pub proof fn lemma_true_key(docs: Seq<Node>, i: int)
    requires
        emissions_of(docs) is Ok,
        0 <= i < entries_of(docs[0]).len(),
        entries_of(docs[0])[i].0 == Node::Boolean(true),
    ensures
        emissions_of(docs)->Ok_0.contains_key("true"@),
{
    lemma_decode_keys(entries_of(docs[0]), emission_entry(), i);
}

} // verus!
