use libfoot::cache::CacheKey;
use libfoot::package::FileInfo;
use libfoot::package::Package;
use libfoot::package::PyPIMetadata;
use libfoot::scan::scan_entries;
use libfoot::scan::ArchiveEntry;
use libfoot::type_counts::TypeCounts;
use libfoot::AnalysisError;
use libfoot::PackageAnalyzer;
use libfoot::PackageFootprint;

#[test]
fn copies_of_plain_values_keep_their_parts() {
    let package = Package::new("n".to_string(), "1".to_string(), vec!["d".to_string()]);
    let copy = package.clone();
    assert_eq!(copy.name, "n");
    assert_eq!(copy.version, "1");
    assert_eq!(copy.dependencies, vec!["d".to_string()]);
    let file = FileInfo::new("p/q.py".to_string(), 9, "py".to_string()).clone();
    assert_eq!(file.path, "p/q.py");
    assert_eq!(file.size, 9);
    assert_eq!(file.file_type, "py");
    let entry = ArchiveEntry::new("p/".to_string(), 3, false).clone();
    assert_eq!(entry.path, "p/");
    assert_eq!(entry.size, 3);
    assert!(!entry.is_file);
    let key = CacheKey::new("n", Some("1")).clone();
    assert!(key.same(&CacheKey::new("n", Some("1"))));
    assert!(!CacheKey::new("n", None).clone().same(&key));
}

#[test]
fn copy_of_metadata_keeps_its_parts() {
    let metadata = PyPIMetadata {
        name: "n".to_string(),
        version: "1".to_string(),
        summary: "s".to_string(),
        release_url: "u".to_string(),
        requires_python: Some(">=3".to_string()),
        requires_dist: vec!["a".to_string(), "b".to_string()],
        package_size: Some(4),
    };
    let copy = metadata.clone();
    assert_eq!(copy.name, "n");
    assert_eq!(copy.summary, "s");
    assert_eq!(copy.release_url, "u");
    assert_eq!(copy.requires_python, Some(">=3".to_string()));
    assert_eq!(copy.requires_dist, vec!["a".to_string(), "b".to_string()]);
    assert_eq!(copy.package_size, Some(4));
}

#[test]
fn copy_of_a_tally_counts_the_same() {
    let mut tally = TypeCounts::new();
    tally.record("py");
    tally.record("txt");
    tally.record("py");
    let copy = tally.clone();
    tally.record("py");
    assert_eq!(copy.to_pairs(), vec![("py".to_string(), 2), ("txt".to_string(), 1)]);
    assert_eq!(tally.get("py"), 3);
}

#[test]
fn copy_of_a_footprint_reports_the_same() {
    let entries = vec![
        ArchiveEntry::new("a.txt".to_string(), 100, true),
        ArchiveEntry::new("b.py".to_string(), 300, true),
    ];
    let package = Package::new("n".to_string(), "1".to_string(), Vec::new());
    let footprint: PackageFootprint = scan_entries(package, &entries, 1);
    let copy = footprint.clone();
    assert_eq!(copy.package.name, "n");
    assert_eq!(copy.total_size, 400);
    assert_eq!(copy.file_count, 2);
    assert_eq!(copy.file_types.to_pairs(), footprint.file_types.to_pairs());
    assert_eq!(copy.largest_files.len(), 1);
    assert_eq!(copy.largest_files[0].path, "b.py");
}

#[test]
fn main_items_are_reachable_from_the_root() {
    let analyzer = PackageAnalyzer::with_max_files(4);
    assert_eq!(analyzer.max_files(), 4);
    let failure = AnalysisError::Io("x".to_string());
    assert_eq!(failure.message(), "x");
}
