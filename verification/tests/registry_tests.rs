use libfoot::error::AnalysisError;
use libfoot::package::Package;
use libfoot::registry::find_wheel;
use libfoot::registry::metadata_from;
use libfoot::registry::metadata_url;
use libfoot::registry::package_from;
use libfoot::registry::ProjectUrl;
use libfoot::registry::PyPIFileInfo;
use libfoot::registry::PyPIInfo;
use libfoot::registry::PyPIResponse;

fn listed_file(url: &str, packagetype: &str, size: u64) -> PyPIFileInfo {
    PyPIFileInfo { url: url.to_string(), packagetype: packagetype.to_string(), size }
}

fn link(label: &str, url: &str) -> ProjectUrl {
    ProjectUrl { label: label.to_string(), url: url.to_string() }
}

fn full_answer() -> PyPIResponse {
    PyPIResponse {
        info: PyPIInfo {
            name: "demo".to_string(),
            version: "2.1".to_string(),
            summary: "A demo".to_string(),
            requires_python: Some(">=3.8".to_string()),
            requires_dist: Some(vec!["a>=1".to_string(), "b".to_string()]),
            project_urls: Some(vec![
                link("Source", "https://src.example"),
                link("Homepage", "https://home.example"),
                link("Homepage", "https://second.example"),
            ]),
        },
        urls: vec![
            listed_file("https://f.example/demo.tar.gz", "sdist", 50),
            listed_file("https://f.example/demo-a.whl", "bdist_wheel", 70),
            listed_file("https://f.example/demo-b.whl", "bdist_wheel", 90),
        ],
    }
}

fn bare_answer() -> PyPIResponse {
    PyPIResponse {
        info: PyPIInfo {
            name: "bare".to_string(),
            version: "0.1".to_string(),
            summary: String::new(),
            requires_python: None,
            requires_dist: None,
            project_urls: None,
        },
        urls: vec![listed_file("https://f.example/bare.tar.gz", "sdist", 5)],
    }
}

#[test]
fn package_keeps_its_parts() {
    let package = Package::new("n".to_string(), "v".to_string(), vec!["d".to_string()]);
    assert_eq!(package.name, "n");
    assert_eq!(package.version, "v");
    assert_eq!(package.dependencies, vec!["d".to_string()]);
}

#[test]
fn first_wheel_is_found() {
    let answer = full_answer();
    let found = find_wheel(&answer.urls).unwrap();
    assert_eq!(found.url, "https://f.example/demo-a.whl");
    assert_eq!(found.size, 70);
}

#[test]
fn no_wheel_is_found_among_other_kinds() {
    assert!(find_wheel(&bare_answer().urls).is_none());
    assert!(find_wheel(&[]).is_none());
    assert!(find_wheel(&[listed_file("u", "BDIST_WHEEL", 1), listed_file("v", "bdist_wheel ", 1)])
        .is_none());
}

#[test]
fn metadata_is_read_out_of_the_answer() {
    let metadata = metadata_from(full_answer());
    assert_eq!(metadata.name, "demo");
    assert_eq!(metadata.version, "2.1");
    assert_eq!(metadata.summary, "A demo");
    assert_eq!(metadata.release_url, "https://home.example");
    assert_eq!(metadata.requires_python, Some(">=3.8".to_string()));
    assert_eq!(metadata.requires_dist, vec!["a>=1".to_string(), "b".to_string()]);
    assert_eq!(metadata.package_size, Some(70));
}

#[test]
fn metadata_of_a_bare_answer_has_empty_parts() {
    let metadata = metadata_from(bare_answer());
    assert_eq!(metadata.name, "bare");
    assert_eq!(metadata.release_url, "");
    assert_eq!(metadata.requires_python, None);
    assert!(metadata.requires_dist.is_empty());
    assert_eq!(metadata.package_size, None);
}

#[test]
fn metadata_without_homepage_link_has_no_release_url() {
    let mut answer = full_answer();
    answer.info.project_urls = Some(vec![link("homepage", "https://lower.example")]);
    assert_eq!(metadata_from(answer).release_url, "");
}

#[test]
fn package_is_made_from_the_answer() {
    let package = package_from(&full_answer());
    assert_eq!(package.name, "demo");
    assert_eq!(package.version, "2.1");
    assert_eq!(package.dependencies, vec!["a>=1".to_string(), "b".to_string()]);
    assert!(package_from(&bare_answer()).dependencies.is_empty());
}

#[test]
fn copy_of_an_answer_has_the_same_parts() {
    let copy = full_answer().clone();
    assert_eq!(copy.info.name, "demo");
    assert_eq!(copy.info.requires_dist, Some(vec!["a>=1".to_string(), "b".to_string()]));
    assert_eq!(copy.info.project_urls.as_ref().unwrap().len(), 3);
    assert_eq!(copy.info.project_urls.as_ref().unwrap()[1].url, "https://home.example");
    assert_eq!(copy.urls.len(), 3);
    assert_eq!(copy.urls[2].size, 90);
}

#[test]
fn metadata_address_with_and_without_version() {
    assert_eq!(metadata_url("requests", None), "https://pypi.org/pypi/requests/json");
    assert_eq!(
        metadata_url("requests", Some("2.31.0")),
        "https://pypi.org/pypi/requests/2.31.0/json"
    );
    assert_eq!(metadata_url("", Some("")), "https://pypi.org/pypi///json");
}

#[test]
fn failure_texts() {
    let missing = AnalysisError::NoDistributableFound {
        package: "demo".to_string(),
        version: "1.0".to_string(),
    };
    assert_eq!(missing.message(), "No wheel found for package: demo, version: 1.0");
    assert_eq!(AnalysisError::Network("down".to_string()).message(), "down");
    assert_eq!(AnalysisError::Parse("bad".to_string()).message(), "bad");
    assert_eq!(AnalysisError::ArchiveFormat("Zip error: x".to_string()).message(), "Zip error: x");
    assert_eq!(AnalysisError::CacheUnavailable("poisoned".to_string()).message(), "poisoned");
    assert_eq!(AnalysisError::Io("disk".to_string()).message(), "disk");
}
