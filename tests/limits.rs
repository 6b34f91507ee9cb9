use pos_tagger::document::is_shallow_text;
use pos_tagger::{DataError, EmissionTable, TransitionMatrix};

#[test]
fn deep_nesting_on_one_line_is_refused() {
    let text = format!("{}a", "- ".repeat(500_000));
    assert!(!is_shallow_text(&text));
    assert_eq!(TransitionMatrix::load(&text), Err(DataError::MalformedDocument));
    assert_eq!(EmissionTable::load(&text), Err(DataError::MalformedDocument));
}

#[test]
fn overlong_line_is_refused() {
    let long_word = "w".repeat(200);
    let text = format!("{}:\n  nn: 1\n", long_word);
    assert!(!is_shallow_text(&text));
    assert_eq!(EmissionTable::load(&text), Err(DataError::MalformedDocument));
    let exact = format!("{}\n", "x".repeat(128));
    assert!(is_shallow_text(&exact));
    let over = format!("{}\n", "x".repeat(129));
    assert!(!is_shallow_text(&over));
}

#[test]
fn anchors_are_refused() {
    let mut text = String::from("a0: &a0 x\n");
    for i in 1..1000 {
        text.push_str(&format!("a{}: &a{} [*a{}]\n", i, i, i - 1));
    }
    assert!(!is_shallow_text(&text));
    assert_eq!(EmissionTable::load(&text), Err(DataError::MalformedDocument));
    assert!(!is_shallow_text("&a x"));
    assert!(!is_shallow_text("k: \"&\"\n"));
}

#[test]
fn ampersand_inside_a_word_is_accepted() {
    let table = EmissionTable::load("AT&T:\n  nnp: 5\nR&D:\n  nn: 2\n").unwrap();
    assert_eq!(table.len(), 2);
    assert!(table.get("AT&T").is_some());
    assert!(table.get("R&D").is_some());
}

#[test]
fn nesting_within_the_bound_is_parsed() {
    let one_line = format!("{}a", "- ".repeat(63));
    assert!(is_shallow_text(&one_line));
    assert_eq!(TransitionMatrix::load(&one_line), Err(DataError::MalformedDocument));

    let mut stairs = String::new();
    for depth in 0..120 {
        stairs.push_str(&" ".repeat(depth));
        stairs.push_str("k:\n");
    }
    assert!(is_shallow_text(&stairs));
    assert_eq!(
        TransitionMatrix::load(&stairs),
        Err(DataError::InvalidTag("k".to_string()))
    );

    let flow = format!("{}{}", "[\n".repeat(255), "]\n".repeat(255));
    assert!(is_shallow_text(&flow));
    assert_eq!(TransitionMatrix::load(&flow), Err(DataError::MalformedDocument));

    let too_deep_flow = format!("{}{}", "[\n".repeat(256), "]\n".repeat(256));
    assert_eq!(TransitionMatrix::load(&too_deep_flow), Err(DataError::MalformedDocument));
}

#[test]
fn errors_describe_themselves() {
    assert_eq!(DataError::InvalidTag("xyz".to_string()).describe(), "Invalid tag: xyz");
    assert_eq!(
        DataError::IoFailure("tags.yml: missing".to_string()).describe(),
        "source unreadable: tags.yml: missing"
    );
    assert_eq!(DataError::MalformedDocument.describe(), "malformed document");
    assert_eq!(DataError::InvalidValueType.describe(), "invalid value type");
}
