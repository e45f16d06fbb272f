//! The analysis of one package: from what the registry says of it to the
//! footprint of its binary distribution.

use crate::archive::all_readable;
use crate::archive::archive_entry;
use crate::archive::archive_len;
use crate::archive::archive_listing;
use crate::archive::entries_of;
use crate::archive::is_archive_failure;
use crate::archive::open_archive;
use crate::archive::parsed_listing;
use crate::cache::request_key;
use crate::error::AnalysisError;
use crate::package::Package;
use crate::package::PackageFootprint;
use crate::package::PackageView;
use crate::package::PyPIMetadata;
use crate::registry::find_wheel;
use crate::registry::first_wheel;
use crate::registry::has_wheel;
use crate::registry::lemma_first_wheel;
use crate::registry::metadata_from;
use crate::registry::metadata_of;
use crate::registry::metadata_url;
use crate::registry::metadata_url_of;
use crate::registry::package_from;
use crate::registry::package_of;
use crate::registry::PyPIFileInfo;
use crate::registry::PyPIResponse;
use crate::registry::PyPIResponseView;
use crate::registry::wheel_of;
use crate::scan::directories_in;
use crate::scan::files_of;
use crate::scan::footprint_of;
use crate::scan::lemma_files_and_directories;
use crate::scan::Scanner;
use crate::scan::types_seen;
use crate::cache::Cached;
use crate::cache::CacheKeyView;
use crate::shared_cache::fetch_pypi_metadata_cached;
use crate::shared_cache::fetch_results;
use crate::shared_cache::is_read_lock_failure;
use crate::shared_cache::is_shared_outcome;
use crate::shared_cache::lemma_shared_outcome_widens;
use crate::shared_cache::is_lock_failure;
use crate::shared_cache::SharedCache;
use std::io::Cursor;
use vstd::prelude::*;
use zip::ZipArchive;

verus! {

/// The number of largest files that is reported where nothing else is asked
/// for.
pub const DEFAULT_MAX_FILES: usize = 10;

/// `error` says that no binary distribution was found, and names the package
/// and the version that the request resolved to: the one that the registry
/// answered for, whether or not a version was asked for.
pub open spec fn reports_missing_wheel(
    error: AnalysisError,
    package_name: Seq<char>,
    response: PyPIResponseView,
) -> bool {
    &&& error matches AnalysisError::NoDistributableFound { package, version: named }
    &&& package@ == package_name
    &&& named@ == response.info.version
}

/// `analysis` is what the bytes of an archive amount to: the footprint of
/// `package` where they hold an archive of which every entry can be read, and
/// an `ArchiveFormat` failure where they do not.
pub open spec fn is_analysis_of(
    analysis: Result<PackageFootprint, AnalysisError>,
    package: PackageView,
    bytes: Seq<u8>,
    limit: nat,
) -> bool {
    match analysis {
        Ok(footprint) => {
            &&& parsed_listing(bytes) matches Some(listing)
            &&& all_readable(listing)
            &&& footprint@ == footprint_of(package, entries_of(listing), limit)
        },
        Err(error) => {
            &&& is_archive_failure(error)
            &&& parsed_listing(bytes) matches Some(listing) ==> !all_readable(listing)
        },
    }
}

/// `analysis` is what follows from the registry's answer: that it lists no
/// binary distribution; or, where it lists one, what follows from asking
/// `download` for the bytes at its address: the failure to download them, or
/// what the bytes amount to.
pub open spec fn is_response_analysis<D: FnOnce(String) -> Result<Vec<u8>, AnalysisError>>(
    analysis: Result<PackageFootprint, AnalysisError>,
    package_name: Seq<char>,
    limit: nat,
    response: PyPIResponseView,
    download: D,
) -> bool {
    if !has_wheel(response) {
        analysis matches Err(error) && reports_missing_wheel(error, package_name, response)
    } else {
        exists|url: String, downloaded: Result<Vec<u8>, AnalysisError>|
            {
                &&& url@ == wheel_of(response).url
                &&& #[trigger] call_ensures(download, (url,), downloaded)
                &&& match downloaded {
                    Err(failure) => analysis == Err::<PackageFootprint, AnalysisError>(failure),
                    Ok(bytes) => is_analysis_of(analysis, package_of(response), bytes@, limit),
                }
            }
    }
}

/// `analysis` is what follows from `fetched`, the outcome of asking the
/// store and the registry for the package: the failure to get an answer, or
/// what follows from the answer.
pub open spec fn is_package_analysis<D: FnOnce(String) -> Result<Vec<u8>, AnalysisError>>(
    analysis: Result<PackageFootprint, AnalysisError>,
    package_name: Seq<char>,
    limit: nat,
    fetched: Result<PyPIResponse, AnalysisError>,
    download: D,
) -> bool {
    match fetched {
        Err(failure) => analysis == Err::<PackageFootprint, AnalysisError>(failure),
        Ok(response) => is_response_analysis(analysis, package_name, limit, response@, download),
    }
}

/// Picks the address of the distribution to analyse out of the registry's
/// answer: that of the first binary distribution. Fails with
/// `NoDistributableFound`, naming the package and the version that the
/// registry answered for, where none is listed.
pub fn wheel_url(package_name: &str, response: &PyPIResponse) -> (chosen: Result<
    String,
    AnalysisError,
>)
    ensures
        match chosen {
            Ok(url) => has_wheel(response@) && url@ == wheel_of(response@).url,
            Err(error) => !has_wheel(response@) && reports_missing_wheel(
                error,
                package_name@,
                response@,
            ),
        },
{
    let files = response.urls.as_slice();
    proof {
        assert(files.deep_view() =~= response.urls.deep_view());
        lemma_first_wheel(files.deep_view());
    }
    match find_wheel(files) {
        Some(file) => {
            assert(files.deep_view()[first_wheel(files.deep_view())] == file@);
            Ok(file.url.clone())
        },
        None => Err(
            AnalysisError::NoDistributableFound {
                package: package_name.to_owned(),
                version: response.info.version.clone(),
            },
        ),
    }
}

/// What `get` may give when it is asked for the address `address`.
pub open spec fn get_results<G: FnOnce(String) -> Result<PyPIResponse, AnalysisError>>(
    get: G,
    address: Seq<char>,
) -> spec_fn(Result<PyPIResponse, AnalysisError>) -> bool {
    |fetched: Result<PyPIResponse, AnalysisError>|
        exists|url: String| url@ == address && #[trigger] call_ensures(get, (url,), fetched)
}

/// `fetched` is what asking the shared store and the registry for a package
/// comes to: the failure to consult the store; or, for some reading of the
/// clock and some content of the store as it was consulted, the fresh answer
/// that the store served for the package and version, or else what follows
/// from asking `get` for the registry's address for them.
pub open spec fn is_fetched_answer<
    C: Fn() -> u64,
    G: FnOnce(String) -> Result<PyPIResponse, AnalysisError>,
>(
    fetched: Result<PyPIResponse, AnalysisError>,
    package_name: Seq<char>,
    version: Option<Seq<char>>,
    ttl_seconds: u64,
    clock: C,
    get: G,
) -> bool {
    (fetched matches Err(error) && is_read_lock_failure(error)) || exists|
        consulted_at: u64,
        seen: Map<CacheKeyView, Cached>,
    |
        {
            &&& call_ensures(clock, (), consulted_at)
            &&& #[trigger] is_shared_outcome(
                fetched,
                seen,
                (CacheKeyView { name: package_name, version }),
                consulted_at,
                ttl_seconds,
                get_results(get, metadata_url_of(package_name, version)),
            )
        }
}

/// Answers a request for the registry's answer for a package from the shared
/// store, asking `get` for it where the store has nothing fresh.
///
/// On a hit `get` is not called. Otherwise it is called once, with the
/// address at which the registry answers for the package and version; what
/// it gives is stored and handed back as `fetch_pypi_metadata_cached` does.
pub fn fetch_pypi_metadata_raw<C, G>(
    cache: &SharedCache,
    package_name: &str,
    version: Option<&str>,
    ttl_seconds: u64,
    clock: &C,
    get: G,
) -> (answer: Result<PyPIResponse, AnalysisError>) where
    C: Fn() -> u64,
    G: FnOnce(String) -> Result<PyPIResponse, AnalysisError>,

    requires
        call_requires(*clock, ()),
        forall|url: String| call_requires(get, (url,)),
    ensures
        answer matches Err(error) ==> is_lock_failure(error) || exists|url: String|
            url@ == metadata_url_of(package_name@, request_key(package_name@, version).version)
                && #[trigger] call_ensures(get, (url,), Err::<PyPIResponse, AnalysisError>(error)),
        is_fetched_answer(
            answer,
            package_name@,
            request_key(package_name@, version).version,
            ttl_seconds,
            *clock,
            get,
        ),
{
    let ghost key = request_key(package_name@, version);
    let ghost address = metadata_url_of(package_name@, key.version);
    let fetch = || -> (fetched: Result<PyPIResponse, AnalysisError>)
        ensures
            get_results(get, address)(fetched),
        {
            let url = metadata_url(package_name, version);
            let ghost asked = url;
            let fetched = get(url);
            assert(call_ensures(get, (asked,), fetched));
            fetched
        };
    let answer = fetch_pypi_metadata_cached(
        cache,
        package_name,
        version,
        ttl_seconds,
        clock,
        fetch,
    );
    let ghost outcome = answer;
    proof {
        if !(outcome matches Err(error) && is_read_lock_failure(error)) {
            let (consulted_at, seen) = choose|consulted_at: u64, seen: Map<CacheKeyView, Cached>|
                {
                    &&& call_ensures(*clock, (), consulted_at)
                    &&& #[trigger] is_shared_outcome(
                        outcome,
                        seen,
                        key,
                        consulted_at,
                        ttl_seconds,
                        fetch_results(fetch),
                    )
                };
            lemma_shared_outcome_widens(
                outcome,
                seen,
                key,
                consulted_at,
                ttl_seconds,
                fetch_results(fetch),
                get_results(get, address),
            );
        }
    }
    answer
}

/// `metadata` is what follows from `fetched`, the outcome of asking the store
/// and the registry for the package: what is shown of the release that was
/// answered for, or the failure to get an answer.
pub open spec fn is_shown_metadata(
    metadata: Result<PyPIMetadata, AnalysisError>,
    fetched: Result<PyPIResponse, AnalysisError>,
) -> bool {
    match fetched {
        Ok(response) => metadata matches Ok(shown) && shown@ == metadata_of(response@),
        Err(failure) => metadata == Err::<PyPIMetadata, AnalysisError>(failure),
    }
}

/// Fetches what is shown of a release: gets the registry's answer for the
/// package from the shared store, or with `get` where the store has nothing
/// fresh, and reads the metadata out of it. A failure to get the answer is
/// handed back unchanged.
pub fn fetch_pypi_metadata<C, G>(
    cache: &SharedCache,
    package_name: &str,
    version: Option<String>,
    ttl_seconds: u64,
    clock: &C,
    get: G,
) -> (metadata: Result<PyPIMetadata, AnalysisError>) where
    C: Fn() -> u64,
    G: FnOnce(String) -> Result<PyPIResponse, AnalysisError>,

    requires
        call_requires(*clock, ()),
        forall|url: String| call_requires(get, (url,)),
    ensures
        exists|fetched: Result<PyPIResponse, AnalysisError>|
            {
                &&& is_fetched_answer(
                    fetched,
                    package_name@,
                    version.deep_view(),
                    ttl_seconds,
                    *clock,
                    get,
                )
                &&& #[trigger] is_shown_metadata(metadata, fetched)
            },
{
    let asked = match &version {
        Some(text) => Some(text.as_str()),
        None => None,
    };
    assert(request_key(package_name@, asked).version == version.deep_view());
    let fetched = fetch_pypi_metadata_raw(cache, package_name, asked, ttl_seconds, clock, get);
    let ghost outcome = fetched;
    let metadata = match fetched {
        Ok(response) => Ok(metadata_from(response)),
        Err(failure) => Err(failure),
    };
    assert(is_shown_metadata(metadata, outcome));
    metadata
}

/// Analyses packages, reporting at most a set number of their largest files.
pub struct PackageAnalyzer {
    max_files: usize,
}

impl Default for PackageAnalyzer {
    fn default() -> (analyzer: Self)
        ensures
            analyzer.limit() == DEFAULT_MAX_FILES,
    {
        Self { max_files: DEFAULT_MAX_FILES }
    }
}

impl PackageAnalyzer {
    /// The largest number of files that this analyzer reports.
    pub closed spec fn limit(&self) -> nat {
        self.max_files as nat
    }

    /// An analyzer that reports up to `DEFAULT_MAX_FILES` largest files.
    pub fn new() -> (analyzer: Self)
        ensures
            analyzer.limit() == DEFAULT_MAX_FILES,
    {
        Self { max_files: DEFAULT_MAX_FILES }
    }

    /// An analyzer that reports up to `max_files` largest files.
    pub fn with_max_files(max_files: usize) -> (analyzer: Self)
        ensures
            analyzer.limit() == max_files,
    {
        Self { max_files }
    }

    /// The largest number of files that this analyzer reports.
    pub fn max_files(&self) -> (limit: usize)
        ensures
            limit == self.limit(),
    {
        self.max_files
    }

    /// Picks the distribution to analyse: the first binary one in the order
    /// of the registry's list.
    pub fn find_wheel_url<'a>(&self, files: &'a [PyPIFileInfo]) -> (found: Option<&'a PyPIFileInfo>)
        ensures
            match found {
                Some(file) => 0 <= first_wheel(files.deep_view()) < files@.len() && *file
                    == files@[first_wheel(files.deep_view())],
                None => first_wheel(files.deep_view()) == files@.len(),
            },
    {
        find_wheel(files)
    }

    /// Computes the footprint of `package` from the directory of its archive;
    /// no file is unpacked. Each entry is read in turn: where one cannot be
    /// read the analysis fails as a whole.
    pub fn analyze_wheel_contents(
        &self,
        package: Package,
        archive: ZipArchive<Cursor<Vec<u8>>>,
    ) -> (analysis: Result<PackageFootprint, AnalysisError>)
        ensures
            match analysis {
                Ok(footprint) => {
                    &&& all_readable(archive_listing(archive))
                    &&& footprint@ == footprint_of(
                        package@,
                        entries_of(archive_listing(archive)),
                        self.limit(),
                    )
                    &&& footprint.file_count + directories_in(
                        entries_of(archive_listing(archive)),
                    ) == archive_listing(archive).len()
                    &&& footprint.file_types.wf()
                    &&& footprint.file_types.listed() == types_seen(
                        files_of(entries_of(archive_listing(archive))),
                    )
                },
                Err(error) => !all_readable(archive_listing(archive)) && is_archive_failure(
                    error,
                ),
            },
    {
        let ghost listing = archive_listing(archive);
        let ghost entries = entries_of(listing);
        let mut reader = archive;
        let mut scanner = Scanner::new(self.max_files);
        let count = archive_len(&reader);
        let mut index: usize = 0;
        while index < count
            invariant
                index <= count,
                count == listing.len(),
                entries == entries_of(listing),
                archive_listing(archive) == listing,
                archive_listing(reader) == listing,
                forall|earlier: int| 0 <= earlier < index ==> (#[trigger] listing[earlier]) is Some,
                scanner.wf(),
                scanner.limit() == self.limit(),
                scanner.seen() == entries.take(index as int),
            decreases count - index,
        {
            match archive_entry(&mut reader, index) {
                Ok(entry) => {
                    proof {
                        assert(entries.take(index as int).push(entry@) =~= entries.take(index + 1));
                    }
                    scanner.observe(entry);
                },
                Err(error) => {
                    assert(listing[index as int] is None);
                    return Err(error);
                },
            }
            index += 1;
        }
        proof {
            assert(entries.take(index as int) =~= entries);
            lemma_files_and_directories(entries);
        }
        Ok(scanner.finish(package))
    }

    /// Computes the footprint of `package` from the bytes of its archive.
    pub fn analyze_wheel_bytes(&self, package: Package, bytes: Vec<u8>) -> (analysis: Result<
        PackageFootprint,
        AnalysisError,
    >)
        ensures
            is_analysis_of(analysis, package@, bytes@, self.limit()),
    {
        match open_archive(bytes) {
            Ok(archive) => self.analyze_wheel_contents(package, archive),
            Err(failure) => Err(failure),
        }
    }

    /// Analyses a package of which the registry's answer is at hand: picks
    /// its first binary distribution, gets the bytes of that with `download`,
    /// and computes the footprint from them.
    ///
    /// Where no binary distribution is listed the analysis fails with
    /// `NoDistributableFound`, naming the package and the version that the
    /// registry answered for, and nothing is downloaded; a failure of
    /// `download` is handed back unchanged.
    pub fn analyze_response<D>(
        &self,
        package_name: &str,
        response: &PyPIResponse,
        download: D,
    ) -> (analysis: Result<PackageFootprint, AnalysisError>) where
        D: FnOnce(String) -> Result<Vec<u8>, AnalysisError>,

        requires
            forall|url: String| call_requires(download, (url,)),
        ensures
            is_response_analysis(analysis, package_name@, self.limit(), response@, download),
    {
        let url = match wheel_url(package_name, response) {
            Ok(url) => url,
            Err(failure) => {
                return Err(failure);
            },
        };
        let ghost asked = url;
        let downloaded = download(url);
        let analysis = match downloaded {
            Ok(bytes) => {
                let package = package_from(response);
                self.analyze_wheel_bytes(package, bytes)
            },
            Err(failure) => Err(failure),
        };
        assert(call_ensures(download, (asked,), downloaded));
        analysis
    }

    /// Analyses one package: gets the registry's answer for it from the
    /// shared store, or with `get` where the store has nothing fresh; picks
    /// its first binary distribution; gets the bytes of that with `download`;
    /// and computes the footprint from them.
    ///
    /// Each step is taken only where the one before it succeeded, and the
    /// first failure is handed back unchanged; no footprint is handed back
    /// in part.
    pub fn analyze_package<C, G, D>(
        &self,
        cache: &SharedCache,
        package_name: &str,
        version: Option<String>,
        ttl_seconds: u64,
        clock: &C,
        get: G,
        download: D,
    ) -> (analysis: Result<PackageFootprint, AnalysisError>) where
        C: Fn() -> u64,
        G: FnOnce(String) -> Result<PyPIResponse, AnalysisError>,
        D: FnOnce(String) -> Result<Vec<u8>, AnalysisError>,

        requires
            call_requires(*clock, ()),
            forall|url: String| call_requires(get, (url,)),
            forall|url: String| call_requires(download, (url,)),
        ensures
            exists|fetched: Result<PyPIResponse, AnalysisError>|
                {
                    &&& is_fetched_answer(
                        fetched,
                        package_name@,
                        version.deep_view(),
                        ttl_seconds,
                        *clock,
                        get,
                    )
                    &&& #[trigger] is_package_analysis(
                        analysis,
                        package_name@,
                        self.limit(),
                        fetched,
                        download,
                    )
                },
    {
        let asked = match &version {
            Some(text) => Some(text.as_str()),
            None => None,
        };
        assert(request_key(package_name@, asked).version == version.deep_view());
        let fetched = fetch_pypi_metadata_raw(cache, package_name, asked, ttl_seconds, clock, get);
        let ghost outcome = fetched;
        let analysis = match fetched {
            Ok(response) => self.analyze_response(package_name, &response, download),
            Err(failure) => Err(failure),
        };
        assert(is_package_analysis(analysis, package_name@, self.limit(), outcome, download));
        analysis
    }
}

} // verus!
