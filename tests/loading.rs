use pos_tagger::{DataError, EmissionTable, Possibility, Tag, TagData, TransitionMatrix};

const CODES: [&str; 44] = [
    "cc", "cd", "det", "ex", "fw", "in", "jj", "jjr", "jjs", "ls", "md", "nn", "nnp", "nnps",
    "nns", "pdt", "pos", "prp", "prps", "rb", "rbr", "rbs", "rp", "sym", "to", "uh", "vb", "vbd",
    "vbg", "vbn", "vbp", "vbz", "wdt", "wp", "wps", "wrb", "pp", "ppc", "ppd", "ppl", "ppr", "pps",
    "lrb", "rrb",
];

/// A transition source over the whole vocabulary: the row of `cc` has forty
/// entries, every other row has all forty-four, and `cd -> det` is 0.0292094.
fn transition_source() -> String {
    let mut text = String::new();
    for prior in CODES.iter() {
        text.push_str(&format!("{}:\n", prior));
        let n = if *prior == "cc" { 40 } else { 44 };
        for following in CODES.iter().take(n) {
            if *prior == "cd" && *following == "det" {
                text.push_str("  det: 0.0292094\n");
            } else {
                text.push_str(&format!("  {}: 0.0001\n", following));
            }
        }
    }
    text
}

const WORD_SOURCE: &str = "the:\n  det: 12\nrun:\n  vb: 3\n  nn: 1\n";

#[test]
fn initializes_pos_tagger_with_data_from_yml_file() {
    let possibility = Possibility::new(&transition_source(), WORD_SOURCE).unwrap();

    assert_eq!(possibility.tag_data.tag_probabilities.len(), 44);

    assert_eq!(possibility.tag_data.tag_probabilities.get(&Tag::CC).unwrap().len(), 40);

    let text = possibility
        .tag_data
        .tag_probabilities
        .get(&Tag::CD)
        .unwrap()
        .get(&Tag::DET)
        .unwrap()
        .clone();
    assert_eq!(text.parse::<f32>().unwrap(), 0.0292094 as f32);
    assert!((text.parse::<f64>().unwrap() - 0.0292094).abs() < 1e-6);
}

#[test]
fn emission_counts_are_read() {
    let table = EmissionTable::load(WORD_SOURCE).unwrap();
    assert_eq!(table.len(), 2);
    assert_eq!(table.get("the").unwrap().get(&Tag::DET), Some(&12));
    let run = table.get("run").unwrap();
    assert_eq!(run.len(), 2);
    assert_eq!(run.get(&Tag::VB), Some(&3));
    assert_eq!(run.get(&Tag::NN), Some(&1));
    assert_eq!(run.get(&Tag::DET), None);
    assert!(table.get("walk").is_none());
}

#[test]
fn probabilities_keep_their_text() {
    let m = TransitionMatrix::load("nn:\n  vb: 0.25\n  det: 1.5e-3\n").unwrap();
    let row = m.get(&Tag::NN).unwrap();
    assert_eq!(row.get(&Tag::VB).unwrap(), "0.25");
    assert_eq!(row.get(&Tag::DET).unwrap(), "1.5e-3");
    assert!(m.get(&Tag::VB).is_none());
}

#[test]
fn non_numeric_leaf_is_invalid_value_type() {
    assert_eq!(
        TransitionMatrix::load("cc:\n  det: often\n"),
        Err(DataError::InvalidValueType)
    );
    assert_eq!(TransitionMatrix::load("cc:\n  det: 1\n"), Err(DataError::InvalidValueType));
    assert_eq!(EmissionTable::load("the:\n  det: 0.5\n"), Err(DataError::InvalidValueType));
    assert_eq!(EmissionTable::load("the:\n  det: many\n"), Err(DataError::InvalidValueType));
}

#[test]
fn scalar_document_is_malformed() {
    assert_eq!(TransitionMatrix::load("42"), Err(DataError::MalformedDocument));
    assert_eq!(EmissionTable::load("just words"), Err(DataError::MalformedDocument));
    assert_eq!(TransitionMatrix::load("- cc\n- cd\n"), Err(DataError::MalformedDocument));
}

#[test]
fn boolean_keys_become_words() {
    let table = EmissionTable::load("true:\n  jj: 4\nfalse:\n  jj: 2\n").unwrap();
    assert_eq!(table.get("true").unwrap().get(&Tag::JJ), Some(&4));
    assert_eq!(table.get("false").unwrap().get(&Tag::JJ), Some(&2));
    assert_eq!(table.len(), 2);
}

#[test]
fn later_word_entry_overrides_earlier() {
    let table = EmissionTable::load("true:\n  jj: 4\n'true':\n  nn: 7\n").unwrap();
    assert_eq!(table.len(), 1);
    let row = table.get("true").unwrap();
    assert_eq!(row.get(&Tag::NN), Some(&7));
    assert_eq!(row.get(&Tag::JJ), None);
}

#[test]
fn loading_twice_gives_equal_data() {
    let source = transition_source();
    let a = TagData::load(&source, WORD_SOURCE);
    let b = TagData::load(&source, WORD_SOURCE);
    assert!(a.is_ok());
    assert_eq!(a, b);
    let c = TagData::load("cc: 1\n", WORD_SOURCE);
    let d = TagData::load("cc: 1\n", WORD_SOURCE);
    assert_eq!(c, Err(DataError::MalformedDocument));
    assert_eq!(c, d);
}

#[test]
fn invalid_tag_keys_are_reported() {
    assert_eq!(
        TransitionMatrix::load("xyz:\n  cc: 0.5\n"),
        Err(DataError::InvalidTag("xyz".to_string()))
    );
    assert_eq!(
        TransitionMatrix::load("cc:\n  CC: 0.5\n"),
        Err(DataError::InvalidTag("CC".to_string()))
    );
    assert_eq!(
        EmissionTable::load("the:\n  article: 3\n"),
        Err(DataError::InvalidTag("article".to_string()))
    );
}

#[test]
fn first_failing_entry_decides_the_error() {
    assert_eq!(
        TransitionMatrix::load("cc:\n  det: x\nbad:\n  cc: 0.5\n"),
        Err(DataError::InvalidValueType)
    );
    assert_eq!(
        TransitionMatrix::load("bad:\n  cc: 0.5\ncc:\n  det: x\n"),
        Err(DataError::InvalidTag("bad".to_string()))
    );
}

#[test]
fn shapes_other_than_mapping_of_mappings_are_malformed() {
    assert_eq!(TransitionMatrix::load("cc: 0.5\n"), Err(DataError::MalformedDocument));
    assert_eq!(TransitionMatrix::load("1:\n  cc: 0.5\n"), Err(DataError::MalformedDocument));
    assert_eq!(TransitionMatrix::load("true:\n  cc: 0.5\n"), Err(DataError::MalformedDocument));
    assert_eq!(TransitionMatrix::load("cc:\n  1: 0.5\n"), Err(DataError::MalformedDocument));
    assert_eq!(EmissionTable::load("12:\n  jj: 1\n"), Err(DataError::MalformedDocument));
    assert_eq!(EmissionTable::load("the: [det]\n"), Err(DataError::MalformedDocument));
}

#[test]
fn document_count_must_be_one() {
    assert_eq!(TransitionMatrix::load(""), Err(DataError::MalformedDocument));
    assert_eq!(
        EmissionTable::load("the:\n  det: 1\n---\na:\n  det: 2\n"),
        Err(DataError::MalformedDocument)
    );
}

#[test]
fn text_that_is_not_yaml_is_malformed() {
    assert_eq!(TransitionMatrix::load("cc: [0.5\n"), Err(DataError::MalformedDocument));
}

#[test]
fn empty_mapping_gives_empty_table() {
    let m = TransitionMatrix::load("{}").unwrap();
    assert_eq!(m.len(), 0);
    let t = EmissionTable::load("the: {}\n").unwrap();
    assert_eq!(t.get("the").unwrap().len(), 0);
}

#[test]
fn transition_source_fails_before_word_source() {
    assert_eq!(
        TagData::load("cc: 1\n", "the:\n  xx: 1\n"),
        Err(DataError::MalformedDocument)
    );
    assert_eq!(
        TagData::load("cc:\n  det: 0.5\n", "the:\n  xx: 1\n"),
        Err(DataError::InvalidTag("xx".to_string()))
    );
    assert!(Possibility::new("cc:\n  det: 0.5\n", "the:\n  det: 1\n").is_ok());
}
