use pos_tagger::{DataError, Tag};

const CODES: [&str; 44] = [
    "cc", "cd", "det", "ex", "fw", "in", "jj", "jjr", "jjs", "ls", "md", "nn", "nnp", "nnps",
    "nns", "pdt", "pos", "prp", "prps", "rb", "rbr", "rbs", "rp", "sym", "to", "uh", "vb", "vbd",
    "vbg", "vbn", "vbp", "vbz", "wdt", "wp", "wps", "wrb", "pp", "ppc", "ppd", "ppl", "ppr", "pps",
    "lrb", "rrb",
];

#[test]
fn every_code_parses_and_encodes_back() {
    for code in CODES.iter() {
        let tag = Tag::from_str(code).unwrap();
        assert_eq!(tag.encode(), *code);
        assert_eq!(Tag::from_str(tag.encode()), Ok(tag));
    }
}

#[test]
fn codes_name_distinct_tags() {
    let tags: Vec<Tag> = CODES.iter().map(|c| Tag::from_str(c).unwrap()).collect();
    for i in 0..tags.len() {
        for j in 0..tags.len() {
            assert_eq!(tags[i] == tags[j], i == j);
        }
    }
}

#[test]
fn known_codes_give_their_tags() {
    assert_eq!(Tag::from_str("cc"), Ok(Tag::CC));
    assert_eq!(Tag::from_str("nnp"), Ok(Tag::NNP));
    assert_eq!(Tag::from_str("vbz"), Ok(Tag::VBZ));
    assert_eq!(Tag::from_str("prps"), Ok(Tag::PRPS));
    assert_eq!(Tag::RRB.encode(), "rrb");
}

#[test]
fn other_text_is_an_invalid_tag() {
    for bad in ["", "CC", "Cc", " cc", "cc ", "xx", "nnpx", "c", "ccc", "vbzz", "d\u{e9}t"].iter() {
        assert_eq!(Tag::from_str(bad), Err(DataError::InvalidTag(bad.to_string())));
    }
}

#[test]
fn standard_parse_goes_through_the_vocabulary() {
    assert_eq!("wdt".parse::<Tag>(), Ok(Tag::WDT));
    assert_eq!("WDT".parse::<Tag>(), Err(DataError::InvalidTag("WDT".to_string())));
}
