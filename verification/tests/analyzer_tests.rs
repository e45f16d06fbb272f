use libfoot::analyzer::fetch_pypi_metadata;
use libfoot::analyzer::fetch_pypi_metadata_raw;
use libfoot::analyzer::wheel_url;
use libfoot::analyzer::PackageAnalyzer;
use libfoot::analyzer::DEFAULT_MAX_FILES;
use libfoot::archive::archive_entry;
use libfoot::archive::archive_len;
use libfoot::archive::open_archive;
use libfoot::shared_cache::SharedCache;
use libfoot::error::AnalysisError;
use libfoot::package::FileInfo;
use libfoot::package::Package;
use libfoot::registry::PyPIFileInfo;
use libfoot::registry::PyPIInfo;
use libfoot::registry::PyPIResponse;
use std::cell::Cell;
use std::cell::RefCell;
use std::io::Cursor;
use std::io::Write;
use zip::write::SimpleFileOptions;
use zip::CompressionMethod;
use zip::ZipWriter;

fn wheel_package() -> Package {
    Package::new("demo".to_string(), "1.0".to_string(), Vec::new())
}

/// The bytes of an archive that holds the given files and directories.
fn archive_bytes(files: &[(&str, usize)], directories: &[&str], method: CompressionMethod) -> Vec<u8> {
    let mut writer = ZipWriter::new(Cursor::new(Vec::new()));
    let options = SimpleFileOptions::default().compression_method(method);
    for directory in directories {
        writer.add_directory(directory.to_string(), options).unwrap();
    }
    for (path, size) in files {
        writer.start_file(path.to_string(), options).unwrap();
        writer.write_all(&vec![b'x'; *size]).unwrap();
    }
    writer.finish().unwrap().into_inner()
}

fn sample_bytes() -> Vec<u8> {
    archive_bytes(
        &[("a.txt", 100), ("pkg/b.py", 300), ("pkg/c.py", 300)],
        &["pkg/"],
        CompressionMethod::Deflated,
    )
}

fn answer_with(urls: Vec<PyPIFileInfo>) -> PyPIResponse {
    PyPIResponse {
        info: PyPIInfo {
            name: "Demo".to_string(),
            version: "1.2.3".to_string(),
            summary: "demo".to_string(),
            requires_python: None,
            requires_dist: Some(vec!["dep>=2".to_string()]),
            project_urls: None,
        },
        urls,
    }
}

fn listed_file(url: &str, packagetype: &str) -> PyPIFileInfo {
    PyPIFileInfo { url: url.to_string(), packagetype: packagetype.to_string(), size: 1 }
}

fn listed(files: &Vec<FileInfo>) -> Vec<(String, u64)> {
    files.iter().map(|file| (file.path.clone(), file.size)).collect()
}

#[test]
fn analyzer_defaults_to_ten_files() {
    assert_eq!(DEFAULT_MAX_FILES, 10);
    assert_eq!(PackageAnalyzer::new().max_files(), 10);
    assert_eq!(PackageAnalyzer::with_max_files(3).max_files(), 3);
    assert_eq!(PackageAnalyzer::with_max_files(0).max_files(), 0);
}

#[test]
fn archive_directory_is_read_entry_by_entry() {
    let mut archive = open_archive(sample_bytes()).unwrap();
    assert_eq!(archive_len(&archive), 4);
    let directory = archive_entry(&mut archive, 0).unwrap();
    assert_eq!(directory.path, "pkg/");
    assert!(!directory.is_file);
    let first = archive_entry(&mut archive, 1).unwrap();
    assert_eq!(first.path, "a.txt");
    assert_eq!(first.size, 100);
    assert!(first.is_file);
    let last = archive_entry(&mut archive, 3).unwrap();
    assert_eq!(last.path, "pkg/c.py");
    assert_eq!(last.size, 300);
    let again = archive_entry(&mut archive, 1).unwrap();
    assert_eq!(again.path, "a.txt");
    assert_eq!(archive_len(&archive), 4);
}

#[test]
fn archive_entry_beyond_the_directory_fails() {
    let mut archive = open_archive(sample_bytes()).unwrap();
    let failure = archive_entry(&mut archive, 4).unwrap_err();
    assert!(matches!(failure, AnalysisError::ArchiveFormat(_)));
    assert!(failure.message().starts_with("Zip error: "));
    assert!(failure.message().len() > "Zip error: ".len());
}

#[test]
fn bytes_that_hold_no_archive_fail_to_open() {
    let failure = open_archive(b"this is no archive at all".to_vec()).unwrap_err();
    assert!(matches!(failure, AnalysisError::ArchiveFormat(_)));
    assert!(failure.message().starts_with("Zip error: "));
    assert!(matches!(open_archive(Vec::new()), Err(AnalysisError::ArchiveFormat(_))));
}

#[test]
fn truncated_archive_fails_the_whole_analysis() {
    let mut bytes = sample_bytes();
    bytes.truncate(bytes.len() / 2);
    let analysis = PackageAnalyzer::new().analyze_wheel_bytes(wheel_package(), bytes);
    assert!(matches!(analysis, Err(AnalysisError::ArchiveFormat(_))));
}

#[test]
fn archive_with_unreadable_entry_fails_the_whole_analysis() {
    let mut bytes = archive_bytes(&[("a.txt", 10), ("b.txt", 20)], &[], CompressionMethod::Stored);
    assert_eq!(&bytes[0..4], b"PK\x03\x04");
    bytes[0] = b'X';
    let archive = open_archive(bytes).unwrap();
    assert_eq!(archive_len(&archive), 2);
    let analysis = PackageAnalyzer::new().analyze_wheel_contents(wheel_package(), archive);
    assert!(matches!(analysis, Err(AnalysisError::ArchiveFormat(_))));
}

#[test]
fn wheel_contents_give_the_footprint() {
    let archive = open_archive(sample_bytes()).unwrap();
    let footprint =
        PackageAnalyzer::with_max_files(2).analyze_wheel_contents(wheel_package(), archive).unwrap();
    assert_eq!(footprint.total_size, 700);
    assert_eq!(footprint.file_count, 3);
    assert_eq!(footprint.file_types.get("txt"), 1);
    assert_eq!(footprint.file_types.get("py"), 2);
    assert_eq!(footprint.file_types.len(), 2);
    assert_eq!(
        listed(&footprint.largest_files),
        vec![("pkg/b.py".to_string(), 300), ("pkg/c.py".to_string(), 300)]
    );
    assert_eq!(footprint.package.name, "demo");
}

#[test]
fn stored_and_deflated_archives_give_the_same_footprint() {
    let files = [("x.bin", 4000), ("y.bin", 10)];
    let stored = archive_bytes(&files, &[], CompressionMethod::Stored);
    let deflated = archive_bytes(&files, &[], CompressionMethod::Deflated);
    assert!(deflated.len() < stored.len());
    let analyzer = PackageAnalyzer::new();
    let one = analyzer.analyze_wheel_bytes(wheel_package(), stored).unwrap();
    let other = analyzer.analyze_wheel_bytes(wheel_package(), deflated).unwrap();
    assert_eq!(one.total_size, 4010);
    assert_eq!(other.total_size, 4010);
    assert_eq!(listed(&one.largest_files), listed(&other.largest_files));
}

#[test]
fn empty_archive_gives_an_empty_footprint() {
    let bytes = archive_bytes(&[], &[], CompressionMethod::Stored);
    let footprint = PackageAnalyzer::new().analyze_wheel_bytes(wheel_package(), bytes).unwrap();
    assert_eq!(footprint.total_size, 0);
    assert_eq!(footprint.file_count, 0);
    assert_eq!(footprint.file_types.len(), 0);
    assert!(footprint.largest_files.is_empty());
}

#[test]
fn wheel_address_is_the_first_binary_distribution() {
    let answer = answer_with(vec![
        listed_file("https://f.example/d.tar.gz", "sdist"),
        listed_file("https://f.example/d1.whl", "bdist_wheel"),
        listed_file("https://f.example/d2.whl", "bdist_wheel"),
    ]);
    assert_eq!(wheel_url("demo", &answer), Ok("https://f.example/d1.whl".to_string()));
    let analyzer = PackageAnalyzer::new();
    assert_eq!(analyzer.find_wheel_url(&answer.urls).unwrap().url, "https://f.example/d1.whl");
    assert!(analyzer.find_wheel_url(&answer.urls[0..1]).is_none());
}

#[test]
fn missing_wheel_names_package_and_version() {
    let answer = answer_with(vec![listed_file("https://f.example/d.tar.gz", "sdist")]);
    assert_eq!(
        wheel_url("demo", &answer),
        Err(AnalysisError::NoDistributableFound {
            package: "demo".to_string(),
            version: "1.2.3".to_string(),
        })
    );
    assert_eq!(
        wheel_url("asked", &answer),
        Err(AnalysisError::NoDistributableFound {
            package: "asked".to_string(),
            version: "1.2.3".to_string(),
        })
    );
}

#[test]
fn package_without_binary_distribution_is_not_analysed() {
    let downloads = Cell::new(0);
    let answer = answer_with(vec![listed_file("https://f.example/d.tar.gz", "sdist")]);
    let analysis = PackageAnalyzer::new().analyze_response("demo", &answer, |_url: String| {
        downloads.set(downloads.get() + 1);
        Ok(Vec::new())
    });
    let failure = analysis.err().unwrap();
    assert_eq!(
        failure,
        AnalysisError::NoDistributableFound {
            package: "demo".to_string(),
            version: "1.2.3".to_string(),
        }
    );
    assert_eq!(failure.message(), "No wheel found for package: demo, version: 1.2.3");
    assert_eq!(downloads.get(), 0);
}

#[test]
fn fetched_package_without_binary_distribution_is_not_analysed() {
    let cache = SharedCache::new();
    let clock = || 0u64;
    let downloads = Cell::new(0);
    let analysis = PackageAnalyzer::new().analyze_package(
        &cache,
        "demo",
        Some("9.9".to_string()),
        60,
        &clock,
        |_url: String| Ok(answer_with(vec![listed_file("https://f.example/d.tar.gz", "sdist")])),
        |_url: String| {
            downloads.set(downloads.get() + 1);
            Ok(Vec::new())
        },
    );
    let failure = analysis.err().unwrap();
    assert_eq!(
        failure,
        AnalysisError::NoDistributableFound {
            package: "demo".to_string(),
            version: "1.2.3".to_string(),
        }
    );
    assert_eq!(failure.message(), "No wheel found for package: demo, version: 1.2.3");
    assert_eq!(downloads.get(), 0);
}

#[test]
fn package_is_analysed_from_fetch_to_footprint() {
    let cache = SharedCache::new();
    let clock = || 0u64;
    let asked = RefCell::new(Vec::new());
    let footprint = PackageAnalyzer::with_max_files(1)
        .analyze_package(
            &cache,
            "demo",
            Some("1.2.3".to_string()),
            60,
            &clock,
            |url: String| {
                asked.borrow_mut().push(url);
                Ok(answer_with(vec![
                    listed_file("https://f.example/d.tar.gz", "sdist"),
                    listed_file("https://f.example/d.whl", "bdist_wheel"),
                ]))
            },
            |url: String| {
                asked.borrow_mut().push(url);
                Ok(sample_bytes())
            },
        )
        .unwrap();
    assert_eq!(
        *asked.borrow(),
        vec![
            "https://pypi.org/pypi/demo/1.2.3/json".to_string(),
            "https://f.example/d.whl".to_string(),
        ]
    );
    assert_eq!(footprint.package.name, "Demo");
    assert_eq!(footprint.package.version, "1.2.3");
    assert_eq!(footprint.package.dependencies, vec!["dep>=2".to_string()]);
    assert_eq!(footprint.total_size, 700);
    assert_eq!(footprint.file_count, 3);
    assert_eq!(listed(&footprint.largest_files), vec![("pkg/b.py".to_string(), 300)]);
}

#[test]
fn second_analysis_takes_the_answer_from_the_store() {
    let cache = SharedCache::new();
    let clock = || 5_000_000_000u64;
    let gets = Cell::new(0);
    let analyzer = PackageAnalyzer::new();
    for _ in 0..2 {
        let footprint = analyzer
            .analyze_package(
                &cache,
                "demo",
                None,
                60,
                &clock,
                |_url: String| {
                    gets.set(gets.get() + 1);
                    Ok(answer_with(vec![listed_file("https://f.example/d.whl", "bdist_wheel")]))
                },
                |_url: String| Ok(sample_bytes()),
            )
            .unwrap();
        assert_eq!(footprint.file_count, 3);
        assert_eq!(footprint.largest_files.len(), 3);
    }
    assert_eq!(gets.get(), 1);
}

#[test]
fn failed_fetch_ends_the_analysis() {
    let cache = SharedCache::new();
    let clock = || 0u64;
    let downloads = Cell::new(0);
    let analysis = PackageAnalyzer::new().analyze_package(
        &cache,
        "demo",
        None,
        60,
        &clock,
        |_url: String| Err(AnalysisError::Network("registry down".to_string())),
        |_url: String| {
            downloads.set(downloads.get() + 1);
            Ok(Vec::new())
        },
    );
    assert_eq!(analysis.err(), Some(AnalysisError::Network("registry down".to_string())));
    assert_eq!(downloads.get(), 0);
}

#[test]
fn failed_download_ends_the_analysis() {
    let answer = answer_with(vec![listed_file("https://f.example/d.whl", "bdist_wheel")]);
    let analysis = PackageAnalyzer::new().analyze_response("demo", &answer, |_url: String| {
        Err(AnalysisError::Io("disk full".to_string()))
    });
    assert_eq!(analysis.err(), Some(AnalysisError::Io("disk full".to_string())));
}

#[test]
fn downloaded_bytes_that_hold_no_archive_end_the_analysis() {
    let answer = answer_with(vec![listed_file("https://f.example/d.whl", "bdist_wheel")]);
    let analysis = PackageAnalyzer::new().analyze_response("demo", &answer, |_url: String| {
        Ok(b"<html>not found</html>".to_vec())
    });
    assert!(matches!(analysis, Err(AnalysisError::ArchiveFormat(_))));
}

#[test]
fn response_is_analysed_from_download_to_footprint() {
    let answer = answer_with(vec![
        listed_file("https://f.example/first.whl", "bdist_wheel"),
        listed_file("https://f.example/second.whl", "bdist_wheel"),
    ]);
    let asked = RefCell::new(Vec::new());
    let footprint = PackageAnalyzer::with_max_files(0)
        .analyze_response("demo", &answer, |url: String| {
            asked.borrow_mut().push(url);
            Ok(sample_bytes())
        })
        .unwrap();
    assert_eq!(*asked.borrow(), vec!["https://f.example/first.whl".to_string()]);
    assert_eq!(footprint.total_size, 700);
    assert!(footprint.largest_files.is_empty());
    assert_eq!(footprint.package.name, "Demo");
}

#[test]
fn raw_metadata_is_fetched_once_and_then_served() {
    let cache = SharedCache::new();
    let asked = RefCell::new(Vec::new());
    let now = Cell::new(1_000_000_000u64);
    let clock = || now.get();
    let first = fetch_pypi_metadata_raw(&cache, "demo", Some("1.2.3"), 60, &clock, |url: String| {
        asked.borrow_mut().push(url);
        Ok(answer_with(Vec::new()))
    })
    .unwrap();
    assert_eq!(first.info.version, "1.2.3");
    now.set(30_000_000_000);
    let second = fetch_pypi_metadata_raw(&cache, "demo", Some("1.2.3"), 60, &clock, |url: String| {
        asked.borrow_mut().push(url);
        Err(AnalysisError::Network("must not be asked".to_string()))
    })
    .unwrap();
    assert_eq!(second.info.name, "Demo");
    now.set(61_000_000_000);
    let third = fetch_pypi_metadata_raw(&cache, "demo", None, 60, &clock, |url: String| {
        asked.borrow_mut().push(url);
        Err(AnalysisError::Network("down".to_string()))
    });
    assert_eq!(third.err(), Some(AnalysisError::Network("down".to_string())));
    assert_eq!(
        *asked.borrow(),
        vec![
            "https://pypi.org/pypi/demo/1.2.3/json".to_string(),
            "https://pypi.org/pypi/demo/json".to_string(),
        ]
    );
}

#[test]
fn shown_metadata_is_read_from_what_was_fetched() {
    let cache = SharedCache::new();
    let clock = || 0u64;
    let asked = RefCell::new(Vec::new());
    let shown = fetch_pypi_metadata(&cache, "demo", Some("1.2.3".to_string()), 60, &clock, |url: String| {
        asked.borrow_mut().push(url);
        Ok(answer_with(vec![PyPIFileInfo {
            url: "u".to_string(),
            packagetype: "bdist_wheel".to_string(),
            size: 77,
        }]))
    })
    .unwrap();
    assert_eq!(*asked.borrow(), vec!["https://pypi.org/pypi/demo/1.2.3/json".to_string()]);
    assert_eq!(shown.name, "Demo");
    assert_eq!(shown.version, "1.2.3");
    assert_eq!(shown.requires_dist, vec!["dep>=2".to_string()]);
    assert_eq!(shown.package_size, Some(77));
    let failed = fetch_pypi_metadata(&cache, "other", None, 60, &clock, |_url: String| {
        Err(AnalysisError::Parse("no json".to_string()))
    });
    assert_eq!(failed.err(), Some(AnalysisError::Parse("no json".to_string())));
}

#[test]
fn failed_resolution_surfaces_unchanged() {
    let cache = SharedCache::new();
    let clock = || 0u64;
    let shown = fetch_pypi_metadata(&cache, "demo", Some("1.0".to_string()), 0, &clock, |_url: String| {
        Err(AnalysisError::Network("unreachable".to_string()))
    });
    assert_eq!(shown.err(), Some(AnalysisError::Network("unreachable".to_string())));
    let downloads = Cell::new(0);
    let analysis = PackageAnalyzer::new().analyze_package(
        &cache,
        "demo",
        Some("1.0".to_string()),
        0,
        &clock,
        |_url: String| Err(AnalysisError::Parse("bad payload".to_string())),
        |_url: String| {
            downloads.set(downloads.get() + 1);
            Ok(Vec::new())
        },
    );
    assert_eq!(analysis.err(), Some(AnalysisError::Parse("bad payload".to_string())));
    assert_eq!(downloads.get(), 0);
}
