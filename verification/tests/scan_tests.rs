use libfoot::package::FileInfo;
use libfoot::package::Package;
use libfoot::package::PackageFootprint;
use libfoot::scan::scan_entries;
use libfoot::scan::ArchiveEntry;
use libfoot::scan::Scanner;

fn sample_package() -> Package {
    Package::new("demo".to_string(), "1.0".to_string(), vec!["dep>=1".to_string()])
}

fn entry(path: &str, size: u64, is_file: bool) -> ArchiveEntry {
    ArchiveEntry::new(path.to_string(), size, is_file)
}

fn sample_entries() -> Vec<ArchiveEntry> {
    vec![
        entry("a.txt", 100, true),
        entry("b.py", 300, true),
        entry("c.py", 300, true),
        entry("dir/", 0, false),
    ]
}

fn listed(files: &Vec<FileInfo>) -> Vec<(String, u64)> {
    files.iter().map(|file| (file.path.clone(), file.size)).collect()
}

/// A reproducible archive of `count` entries: every seventh is a directory,
/// sizes repeat often, and paths are all different.
fn mixed_entries(count: usize) -> Vec<ArchiveEntry> {
    let mut state: u64 = 0x2545_f491_4f6c_dd1d;
    let mut entries = Vec::with_capacity(count);
    for index in 0..count {
        state = state.wrapping_mul(6364136223846793005).wrapping_add(1442695040888963407);
        let size = (state >> 33) % 5000;
        if index % 7 == 3 {
            entries.push(entry(&format!("pkg/dir{}/", index), 0, false));
        } else {
            let kind = ["py", "txt", "so", "json"][(state >> 20) as usize % 4];
            entries.push(entry(&format!("pkg/f{}x{}.{}", state % 977, index, kind), size, true));
        }
    }
    entries
}

/// The largest files by sorting all of them: largest first, paths in
/// ascending order among files of one size.
fn expected_largest(entries: &Vec<ArchiveEntry>, limit: usize) -> Vec<(String, u64)> {
    let mut files: Vec<(String, u64)> = entries
        .iter()
        .filter(|entry| entry.is_file)
        .map(|entry| (entry.path.clone(), entry.size))
        .collect();
    files.sort_by(|a, b| b.1.cmp(&a.1).then(a.0.cmp(&b.0)));
    files.truncate(limit);
    files
}

fn check_against_sorting(count: usize, limit: usize) {
    let entries = mixed_entries(count);
    let footprint = scan_entries(sample_package(), &entries, limit);
    assert_eq!(listed(&footprint.largest_files), expected_largest(&entries, limit));
    let files = entries.iter().filter(|entry| entry.is_file).count();
    let directories = entries.len() - files;
    let total: u64 = entries.iter().filter(|entry| entry.is_file).map(|entry| entry.size).sum();
    assert_eq!(footprint.file_count, files);
    assert_eq!(footprint.file_count + directories, count);
    assert_eq!(footprint.total_size, total);
}

#[test]
fn scan_reports_totals_types_and_largest_files() {
    let footprint = scan_entries(sample_package(), &sample_entries(), 2);
    assert_eq!(footprint.total_size, 700);
    assert_eq!(footprint.file_count, 3);
    assert_eq!(footprint.file_types.len(), 2);
    assert_eq!(footprint.file_types.get("txt"), 1);
    assert_eq!(footprint.file_types.get("py"), 2);
    assert_eq!(
        listed(&footprint.largest_files),
        vec![("b.py".to_string(), 300), ("c.py".to_string(), 300)]
    );
    assert_eq!(footprint.largest_files[0].file_type, "py");
    assert_eq!(footprint.package.name, "demo");
    assert_eq!(footprint.package.version, "1.0");
    assert_eq!(footprint.package.dependencies, vec!["dep>=1".to_string()]);
}

#[test]
fn scan_with_zero_limit_reports_no_files_but_all_totals() {
    let footprint = scan_entries(sample_package(), &sample_entries(), 0);
    assert!(footprint.largest_files.is_empty());
    assert_eq!(footprint.total_size, 700);
    assert_eq!(footprint.file_count, 3);
    assert_eq!(footprint.file_types.get("txt"), 1);
    assert_eq!(footprint.file_types.get("py"), 2);
}

#[test]
fn scan_of_empty_archive_is_all_zero() {
    let footprint = scan_entries(sample_package(), &Vec::new(), 10);
    assert_eq!(footprint.total_size, 0);
    assert_eq!(footprint.file_count, 0);
    assert_eq!(footprint.file_types.len(), 0);
    assert!(footprint.largest_files.is_empty());
}

#[test]
fn scan_does_not_count_directories() {
    let entries = vec![entry("a/", 0, false), entry("a/b/", 5, false), entry("a/b/c.rs", 9, true)];
    let footprint = scan_entries(sample_package(), &entries, 10);
    assert_eq!(footprint.file_count, 1);
    assert_eq!(footprint.total_size, 9);
    assert_eq!(listed(&footprint.largest_files), vec![("a/b/c.rs".to_string(), 9)]);
}

#[test]
fn scan_total_saturates_instead_of_wrapping() {
    let entries = vec![entry("big.bin", u64::MAX - 1, true), entry("more.bin", 5, true)];
    let footprint = scan_entries(sample_package(), &entries, 1);
    assert_eq!(footprint.total_size, u64::MAX);
    assert_eq!(footprint.file_count, 2);
    assert_eq!(listed(&footprint.largest_files), vec![("big.bin".to_string(), u64::MAX - 1)]);
}

#[test]
fn scan_totals_do_not_depend_on_the_limit() {
    let entries = mixed_entries(500);
    let small = scan_entries(sample_package(), &entries, 1);
    let large = scan_entries(sample_package(), &entries, 400);
    assert_eq!(small.total_size, large.total_size);
    assert_eq!(small.file_count, large.file_count);
    assert_eq!(small.file_types.to_pairs(), large.file_types.to_pairs());
}

#[test]
fn scan_type_counts_add_up_to_file_count() {
    let entries = mixed_entries(1000);
    let footprint = scan_entries(sample_package(), &entries, 5);
    let counted: usize = footprint.file_types.to_pairs().iter().map(|pair| pair.1).sum();
    assert_eq!(counted, footprint.file_count);
}

#[test]
fn scan_lists_types_in_order_of_first_file() {
    let entries = vec![
        entry("x.py", 1, true),
        entry("README", 2, true),
        entry("y.txt", 3, true),
        entry("z.py", 4, true),
    ];
    let footprint = scan_entries(sample_package(), &entries, 0);
    assert_eq!(
        footprint.file_types.to_pairs(),
        vec![("py".to_string(), 2), ("unknown".to_string(), 1), ("txt".to_string(), 1)]
    );
    assert_eq!(footprint.file_types.type_at(1), "unknown");
    assert_eq!(footprint.file_types.get("rs"), 0);
}

#[test]
fn scan_matches_sorting_with_limit_zero() {
    check_against_sorting(100_000, 0);
}

#[test]
fn scan_matches_sorting_with_limit_one() {
    check_against_sorting(100_000, 1);
}

#[test]
fn scan_matches_sorting_with_limit_ten() {
    check_against_sorting(100_000, 10);
}

#[test]
fn scan_matches_sorting_with_limit_of_all() {
    check_against_sorting(100_000, 100_000);
}

#[test]
fn scan_matches_sorting_with_limit_beyond_all() {
    check_against_sorting(100_000, 100_001);
}

#[test]
fn scan_matches_sorting_on_small_archives() {
    for count in 0..12 {
        for limit in 0..14 {
            check_against_sorting(count, limit);
        }
    }
}

#[test]
fn scan_matches_sorting_when_all_sizes_are_equal() {
    let entries: Vec<ArchiveEntry> =
        (0..500).map(|index| entry(&format!("f{:03}.bin", (index * 37) % 500), 7, true)).collect();
    let footprint = scan_entries(sample_package(), &entries, 20);
    assert_eq!(listed(&footprint.largest_files), expected_largest(&entries, 20));
    assert_eq!(footprint.largest_files[0].path, "f000.bin");
    assert_eq!(footprint.largest_files[19].path, "f019.bin");
}

#[test]
fn scan_order_of_entries_does_not_change_largest() {
    let mut entries = mixed_entries(3000);
    let forward = scan_entries(sample_package(), &entries, 25);
    entries.reverse();
    let backward = scan_entries(sample_package(), &entries, 25);
    assert_eq!(listed(&forward.largest_files), listed(&backward.largest_files));
}

#[test]
fn scanner_fed_one_entry_at_a_time_gives_the_same_footprint() {
    let mut scanner = Scanner::new(2);
    for one in sample_entries() {
        scanner.observe(one);
    }
    let footprint = scanner.finish(sample_package());
    assert_eq!(footprint.total_size, 700);
    assert_eq!(footprint.file_count, 3);
    assert_eq!(
        listed(&footprint.largest_files),
        vec![("b.py".to_string(), 300), ("c.py".to_string(), 300)]
    );
}

#[test]
fn new_footprint_is_empty() {
    let footprint = PackageFootprint::new(sample_package());
    assert_eq!(footprint.package.name, "demo");
    assert_eq!(footprint.total_size, 0);
    assert_eq!(footprint.file_count, 0);
    assert_eq!(footprint.file_types.len(), 0);
    assert!(footprint.largest_files.is_empty());
}
