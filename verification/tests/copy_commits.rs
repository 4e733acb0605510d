use commitlog::commit_id::CommitId;
use commitlog::commit_list::CommitList;
use commitlog::doc_line::DocLine;
use commitlog::log_items::{CommitInfo, ItemBatch};
use commitlog::text::string_width_align;

#[test]
fn test_string_width_align() {
    assert_eq!(string_width_align("123", 3), "123");
    assert_eq!(string_width_align("123", 2), "..");
    assert_eq!(string_width_align("123", 3), "123");
    assert_eq!(string_width_align("12345", 6), "12345 ");
    assert_eq!(string_width_align("1234556", 4), "12..");
}

#[test]
fn test_string_width_align_unicode() {
    assert_eq!(string_width_align("äste", 3), "ä..");
    assert_eq!(string_width_align("wüsten äste", 10), "wüsten ä..");
    assert_eq!(string_width_align("Jon Grythe Stødle", 19), "Jon Grythe Stødle  ");
}

/// A list with a few loaded commits, whose ids count up from zero.
fn build_commit_list_with_some_commits() -> CommitList {
    let mut items = ItemBatch::default();
    let infos: Vec<CommitInfo> = (0..20)
        .map(|idx| CommitInfo {
            message: String::default(),
            time: 0,
            author: String::default(),
            id: CommitId::from_str_unchecked(&format!("{idx:040}")).unwrap(),
            parents: Vec::new(),
        })
        .collect();
    items.set_items(2, infos, &None);
    CommitList {
        items,
        selection: DocLine::at_commit(4),
        ..CommitList::default()
    }
}

/// Marks by index in the list.
fn build_marked_from_indices(cl: &CommitList, marked_indices: &[usize]) -> Vec<(usize, CommitId)> {
    let offset = cl.items.index_offset();
    marked_indices
        .iter()
        .map(|idx| (*idx, cl.items.get(*idx - offset).unwrap().id))
        .collect()
}

#[test]
fn test_copy_commit_list_empty() {
    assert_eq!(CommitList::default().concat_selected_commit_ids(), None);
}

#[test]
fn test_copy_commit_none_marked() {
    let cl = CommitList {
        selection: DocLine::at_commit(4),
        ..build_commit_list_with_some_commits()
    };
    // The ids are offset by two.
    assert_eq!(
        cl.concat_selected_commit_ids(),
        Some(String::from("0000000000000000000000000000000000000002"))
    );
}

#[test]
fn test_copy_commit_one_marked() {
    let cl = build_commit_list_with_some_commits();
    let cl = CommitList {
        marked: build_marked_from_indices(&cl, &[3]),
        ..cl
    };
    assert_eq!(
        cl.concat_selected_commit_ids(),
        Some(String::from("0000000000000000000000000000000000000001"))
    );
}

#[test]
fn test_copy_commit_range_marked() {
    let cl = build_commit_list_with_some_commits();
    let cl = CommitList {
        marked: build_marked_from_indices(&cl, &[4, 5, 6, 7]),
        ..cl
    };
    assert_eq!(
        cl.concat_selected_commit_ids(),
        Some(format!(
            "{} {} {} {}",
            "0000000000000000000000000000000000000002",
            "0000000000000000000000000000000000000003",
            "0000000000000000000000000000000000000004",
            "0000000000000000000000000000000000000005"
        ))
    );
}

#[test]
fn test_copy_commit_random_marked() {
    let cl = build_commit_list_with_some_commits();
    let cl = CommitList {
        marked: build_marked_from_indices(&cl, &[4, 7]),
        ..cl
    };
    let expected = format!(
        "{} {}",
        "0000000000000000000000000000000000000002", "0000000000000000000000000000000000000005"
    );
    assert_eq!(cl.concat_selected_commit_ids(), Some(expected.clone()));
    assert_eq!(cl.copy_commit_hash(), Some(expected));
}
