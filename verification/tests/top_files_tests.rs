use libfoot::package::FileInfo;
use libfoot::top_files::TopFiles;
use libfoot::type_counts::TypeCounts;
use std::cmp::Ordering;

fn file(path: &str, size: u64, file_type: &str) -> FileInfo {
    FileInfo::new(path.to_string(), size, file_type.to_string())
}

fn paths(files: &Vec<FileInfo>) -> Vec<String> {
    files.iter().map(|file| file.path.clone()).collect()
}

#[test]
fn file_info_keeps_its_parts() {
    let one = file("a/b.py", 7, "py");
    assert_eq!(one.path, "a/b.py");
    assert_eq!(one.size, 7);
    assert_eq!(one.file_type, "py");
}

#[test]
fn larger_file_is_greater() {
    let small = file("a", 1, "unknown");
    let large = file("b", 2, "unknown");
    assert!(large > small);
    assert!(small < large);
    assert!(large.outranks(&small));
    assert!(!small.outranks(&large));
    assert_eq!(large.cmp(&small), Ordering::Greater);
    assert_eq!(small.cmp(&large), Ordering::Less);
    assert_eq!(large.partial_cmp(&small), Some(Ordering::Greater));
}

#[test]
fn among_equal_sizes_the_earlier_path_is_greater() {
    let first = file("b.py", 300, "py");
    let second = file("c.py", 300, "py");
    assert!(first > second);
    assert!(first.outranks(&second));
    assert!(first.listed_ahead(&second));
    assert!(!second.listed_ahead(&first));
    assert_eq!(second.cmp(&first), Ordering::Less);
}

#[test]
fn files_with_one_size_and_path_are_equal() {
    let one = file("same", 5, "txt");
    let other = file("same", 5, "bin");
    assert!(one == other);
    assert_eq!(one.cmp(&other), Ordering::Equal);
    assert!(!one.outranks(&other));
    assert!(one.listed_ahead(&other) != other.listed_ahead(&one));
    assert!(other.listed_ahead(&one));
    assert!(one != file("same", 6, "txt"));
    assert!(one != file("other", 5, "txt"));
}

#[test]
fn path_order_is_by_bytes() {
    let upper = file("Z", 1, "unknown");
    let lower = file("a", 1, "unknown");
    let prefix = file("ab", 1, "unknown");
    let longer = file("abc", 1, "unknown");
    let accented = file("\u{e9}", 1, "unknown");
    assert!(upper.outranks(&lower));
    assert!(prefix.outranks(&longer));
    assert!(lower.outranks(&accented));
    assert!(longer.outranks(&accented));
}

#[test]
fn selection_keeps_the_largest_in_order() {
    let mut selection = TopFiles::new(3);
    for (path, size) in [("a", 10), ("b", 50), ("c", 30), ("d", 50), ("e", 5), ("f", 40)] {
        selection.offer(file(path, size, "unknown"));
    }
    assert_eq!(selection.len(), 3);
    assert_eq!(paths(&selection.into_sorted()), vec!["b", "d", "f"]);
}

#[test]
fn selection_with_room_keeps_everything() {
    let mut selection = TopFiles::new(10);
    selection.offer(file("x", 1, "unknown"));
    selection.offer(file("y", 3, "unknown"));
    selection.offer(file("z", 2, "unknown"));
    assert_eq!(selection.len(), 3);
    assert_eq!(paths(&selection.into_sorted()), vec!["y", "z", "x"]);
}

#[test]
fn selection_of_nothing_stays_empty() {
    let mut selection = TopFiles::new(0);
    selection.offer(file("x", 1, "unknown"));
    selection.offer(file("y", 3, "unknown"));
    assert_eq!(selection.len(), 0);
    assert!(selection.into_sorted().is_empty());
}

#[test]
fn selection_does_not_replace_an_equal_file() {
    let mut selection = TopFiles::new(1);
    selection.offer(file("a", 4, "first"));
    selection.offer(file("b", 4, "second"));
    let kept = selection.into_sorted();
    assert_eq!(paths(&kept), vec!["a"]);
    assert_eq!(kept[0].file_type, "first");
}

#[test]
fn selection_keeps_duplicates() {
    let mut selection = TopFiles::new(2);
    selection.offer(file("a", 4, "t"));
    selection.offer(file("a", 4, "t"));
    selection.offer(file("b", 1, "t"));
    assert_eq!(paths(&selection.into_sorted()), vec!["a", "a"]);
}

#[test]
fn tally_counts_and_lists_types() {
    let mut tally = TypeCounts::new();
    assert_eq!(tally.len(), 0);
    assert_eq!(tally.get("py"), 0);
    tally.record("py");
    tally.record("txt");
    tally.record("py");
    assert_eq!(tally.len(), 2);
    assert_eq!(tally.get("py"), 2);
    assert_eq!(tally.get("txt"), 1);
    assert_eq!(tally.get("rs"), 0);
    assert_eq!(tally.type_at(0), "py");
    assert_eq!(tally.type_at(1), "txt");
    assert_eq!(tally.to_pairs(), vec![("py".to_string(), 2), ("txt".to_string(), 1)]);
}

#[test]
fn tally_records_many_files_at_once() {
    let mut tally = TypeCounts::new();
    tally.record_many("py", 5);
    tally.record_many("txt", 0);
    tally.record("py");
    tally.record_many("so", 2);
    tally.record_many("py", 10);
    assert_eq!(tally.len(), 2);
    assert_eq!(tally.get("py"), 16);
    assert_eq!(tally.get("txt"), 0);
    assert_eq!(tally.to_pairs(), vec![("py".to_string(), 16), ("so".to_string(), 2)]);
}
