use vstd::prelude::*;

use crate::error::DataError;
use crate::loader::{emissions_of_text, transitions_of_text};
use crate::table::{EmissionTable, TransitionMatrix};
use crate::tag::Tag;

verus! {

/// The tables that a transition source and an emission source describe; the
/// first source that fails decides the error.
pub open spec fn tag_data_of(transitions: Seq<char>, words: Seq<char>) -> Result<
    (Map<Tag, Map<Tag, String>>, Map<Seq<char>, Map<Tag, i64>>),
    DataError,
> {
    match transitions_of_text(transitions) {
        Err(e) => Err(e),
        Ok(m) => match emissions_of_text(words) {
            Err(e) => Err(e),
            Ok(t) => Ok((m, t)),
        },
    }
}

/// `r` is what loading the two sources gives.
pub open spec fn loaded_from(
    transitions: Seq<char>,
    words: Seq<char>,
    r: Result<TagData, DataError>,
) -> bool {
    match r {
        Ok(d) => d.wf() && tag_data_of(transitions, words) == Ok::<
            (Map<Tag, Map<Tag, String>>, Map<Seq<char>, Map<Tag, i64>>),
            DataError,
        >(d@),
        Err(e) => tag_data_of(transitions, words) == Err::<
            (Map<Tag, Map<Tag, String>>, Map<Seq<char>, Map<Tag, i64>>),
            DataError,
        >(e),
    }
}

/// The validated transition matrix and emission table.
#[derive(Debug, PartialEq)]
pub struct TagData {
    pub tag_probabilities: TransitionMatrix,
    pub words: EmissionTable,
}

impl View for TagData {
    type V = (Map<Tag, Map<Tag, String>>, Map<Seq<char>, Map<Tag, i64>>);

    open spec fn view(&self) -> Self::V {
        (self.tag_probabilities@, self.words@)
    }
}

impl TagData {
    pub open spec fn wf(&self) -> bool {
        self.tag_probabilities.wf() && self.words.wf()
    }

    /// Loads both tables from the YAML texts of their sources.
    pub fn load(transitions: &str, words: &str) -> (r: Result<TagData, DataError>)
        ensures
            loaded_from(transitions@, words@, r),
    {
        let tag_probabilities = match TransitionMatrix::load(transitions) {
            Ok(m) => m,
            Err(e) => return Err(e),
        };
        let words = match EmissionTable::load(words) {
            Ok(t) => t,
            Err(e) => return Err(e),
        };
        Ok(TagData { tag_probabilities, words })
    }
}

/// The tagger's context: it owns the tag data, read-only once loaded.
#[derive(Debug, PartialEq)]
pub struct Possibility {
    pub tag_data: TagData,
}

impl Possibility {
    /// Builds the context from the YAML texts of the transition source and the
    /// emission source.
    pub fn new(transitions: &str, words: &str) -> (r: Result<Possibility, DataError>)
        ensures
            match r {
                Ok(p) => loaded_from(transitions@, words@, Ok::<TagData, DataError>(p.tag_data)),
                Err(e) => loaded_from(transitions@, words@, Err::<TagData, DataError>(e)),
            },
    {
        match TagData::load(transitions, words) {
            Ok(tag_data) => Ok(Possibility { tag_data }),
            Err(e) => Err(e),
        }
    }
}

/// Loading is a function of the two texts: two loads of the same sources both
/// succeed with equal tables, or both fail with the same error.
pub proof fn lemma_load_idempotent(
    transitions: Seq<char>,
    words: Seq<char>,
    r1: Result<TagData, DataError>,
    r2: Result<TagData, DataError>,
)
    requires
        loaded_from(transitions, words, r1),
        loaded_from(transitions, words, r2),
    ensures
        r1 is Ok <==> r2 is Ok,
        r1 is Ok ==> r1->Ok_0@ == r2->Ok_0@,
        r1 is Err ==> r1->Err_0 == r2->Err_0,
{
}

} // verus!
