use commitlog::commit_id::{CommitId, CommitIdError};
use commitlog::doc_line::{CommitIndex, DocLine, LineOfs};
use commitlog::text::{decimal_text, join, pad, string_width_align};

const ID: &str = "0123456789abcdef0123456789abcdef01234567";

#[test]
fn ids_and_their_text() {
    let id = CommitId::from_str_unchecked(ID).unwrap();
    assert_eq!(id.high, 0x0123456789abcdef0123456789abcdef);
    assert_eq!(id.low, 0x01234567);
    assert_eq!(id.to_string(), ID);
    assert_eq!(id.get_short_string(), "0123456");
    assert_eq!(CommitId::from_str_unchecked(&ID.to_uppercase()), Ok(id));
}

#[test]
fn short_ids_end_in_zeros() {
    let id = CommitId::from_str_unchecked("abc").unwrap();
    assert_eq!(id.to_string(), format!("abc{}", "0".repeat(37)));
}

#[test]
fn texts_that_are_no_ids() {
    assert_eq!(CommitId::from_str_unchecked(""), Err(CommitIdError::Empty));
    let long = format!("{ID}0");
    assert_eq!(CommitId::from_str_unchecked(&long), Err(CommitIdError::TooLong));
    assert_eq!(CommitId::from_str_unchecked("12g4"), Err(CommitIdError::NotHexadecimal));
    assert_eq!(CommitId::from_str_unchecked("é"), Err(CommitIdError::NotHexadecimal));
}

#[test]
fn different_ids_have_different_texts() {
    let a = CommitId { high: 1, low: 2 };
    let b = CommitId { high: 1, low: 3 };
    assert_ne!(a.to_string(), b.to_string());
    assert!(a.is_before(&b));
    assert!(!b.is_before(&a));
    assert!(!a.is_before(&a));
    assert!(b.is_before(&CommitId { high: 2, low: 0 }));
}

#[test]
fn narrow_columns() {
    assert_eq!(string_width_align("", 0), "");
    assert_eq!(string_width_align("a", 0), "..");
    assert_eq!(string_width_align("ab", 1), "..");
    assert_eq!(string_width_align("a", 1), "a");
    assert_eq!(string_width_align("", 2), "  ");
}

#[test]
fn padding_counts_characters() {
    assert_eq!(pad("äb", 4), "äb  ");
    assert_eq!(pad("abc", 2), "abc");
}

#[test]
fn joining_and_numbers() {
    let parts = vec!["a".to_string(), String::new(), "b".to_string()];
    assert_eq!(join(&parts, ", "), "a, , b");
    assert_eq!(join(&vec![], ", "), "");
    assert_eq!(decimal_text(0), "0");
    assert_eq!(decimal_text(1090), "1090");
    assert_eq!(decimal_text(usize::MAX), format!("{}", usize::MAX));
}

#[test]
fn places_in_the_document() {
    let place = DocLine::at_commit(3);
    assert_eq!(usize::from(place.commit_index), 3);
    assert_eq!(usize::from(LineOfs(2)), 2);
    assert_eq!(place.saturating_sub(5), DocLine::at_commit(0));
    assert_eq!(place.saturating_add(5), DocLine::at_commit(8));
    assert_eq!(place.saturating_add(usize::MAX), DocLine::at_commit(usize::MAX));
}

#[test]
fn the_default_place_is_the_first_commit() {
    assert_eq!(DocLine::default(), DocLine::at_commit(0));
    assert_eq!(CommitIndex::default(), CommitIndex(0));
    assert_eq!(LineOfs::default(), LineOfs(0));
}

#[test]
fn places_are_ordered_by_commit_and_line() {
    let line = |commit: usize, line: usize| DocLine {
        commit_index: CommitIndex(commit),
        line_offset: Some(LineOfs(line)),
    };
    let in_order = [
        DocLine::at_commit(0),
        line(0, 0),
        line(0, 7),
        DocLine::at_commit(1),
        line(1, 3),
        DocLine::at_commit(2),
    ];
    for (i, a) in in_order.iter().enumerate() {
        for (j, b) in in_order.iter().enumerate() {
            assert_eq!(a.partial_cmp(b), Some(i.cmp(&j)));
            assert_eq!(a.cmp(b), i.cmp(&j));
            assert_eq!(a < b, i < j);
            assert_eq!(a.is_before(b), i < j);
        }
    }
}
