//! What the registry says of a package, and what is read out of it.

use crate::package::Package;
use crate::package::PackageView;
use crate::package::PyPIMetadata;
use crate::package::PyPIMetadataView;
use crate::text::copy_texts;
use crate::text::str_same;
use vstd::prelude::*;
use vstd::string::StringExecFns;

verus! {

/// One distribution file that the registry lists for a release: where to get
/// it, the kind of packaging, and its size in bytes.
#[derive(Debug)]
pub struct PyPIFileInfo {
    pub url: String,
    pub packagetype: String,
    pub size: u64,
}

/// One named link of a project, such as its homepage.
#[derive(Debug)]
pub struct ProjectUrl {
    pub label: String,
    pub url: String,
}

/// What the registry says of the release itself.
#[derive(Debug)]
pub struct PyPIInfo {
    pub name: String,
    pub version: String,
    pub summary: String,
    pub requires_python: Option<String>,
    pub requires_dist: Option<Vec<String>>,
    pub project_urls: Option<Vec<ProjectUrl>>,
}

/// The registry's answer for one release: the release and its files.
#[derive(Debug)]
pub struct PyPIResponse {
    pub info: PyPIInfo,
    pub urls: Vec<PyPIFileInfo>,
}

/// The mathematical value of a [`PyPIFileInfo`].
#[verifier::ext_equal]
pub struct PyPIFileInfoView {
    pub url: Seq<char>,
    pub packagetype: Seq<char>,
    pub size: u64,
}

/// The mathematical value of a [`ProjectUrl`].
#[verifier::ext_equal]
pub struct ProjectUrlView {
    pub label: Seq<char>,
    pub url: Seq<char>,
}

/// The mathematical value of a [`PyPIInfo`].
#[verifier::ext_equal]
pub struct PyPIInfoView {
    pub name: Seq<char>,
    pub version: Seq<char>,
    pub summary: Seq<char>,
    pub requires_python: Option<Seq<char>>,
    pub requires_dist: Option<Seq<Seq<char>>>,
    pub project_urls: Option<Seq<ProjectUrlView>>,
}

/// The mathematical value of a [`PyPIResponse`].
#[verifier::ext_equal]
pub struct PyPIResponseView {
    pub info: PyPIInfoView,
    pub urls: Seq<PyPIFileInfoView>,
}

impl View for PyPIFileInfo {
    type V = PyPIFileInfoView;

    open spec fn view(&self) -> PyPIFileInfoView {
        PyPIFileInfoView { url: self.url@, packagetype: self.packagetype@, size: self.size }
    }
}

impl DeepView for PyPIFileInfo {
    type V = PyPIFileInfoView;

    open spec fn deep_view(&self) -> PyPIFileInfoView {
        self@
    }
}

impl View for ProjectUrl {
    type V = ProjectUrlView;

    open spec fn view(&self) -> ProjectUrlView {
        ProjectUrlView { label: self.label@, url: self.url@ }
    }
}

impl DeepView for ProjectUrl {
    type V = ProjectUrlView;

    open spec fn deep_view(&self) -> ProjectUrlView {
        self@
    }
}

impl View for PyPIInfo {
    type V = PyPIInfoView;

    open spec fn view(&self) -> PyPIInfoView {
        PyPIInfoView {
            name: self.name@,
            version: self.version@,
            summary: self.summary@,
            requires_python: self.requires_python.deep_view(),
            requires_dist: self.requires_dist.deep_view(),
            project_urls: self.project_urls.deep_view(),
        }
    }
}

impl View for PyPIResponse {
    type V = PyPIResponseView;

    open spec fn view(&self) -> PyPIResponseView {
        PyPIResponseView { info: self.info@, urls: self.urls.deep_view() }
    }
}

impl Clone for PyPIFileInfo {
    fn clone(&self) -> (copy: Self)
        ensures
            copy@ == self@,
    {
        PyPIFileInfo {
            url: self.url.clone(),
            packagetype: self.packagetype.clone(),
            size: self.size,
        }
    }
}

impl Clone for ProjectUrl {
    fn clone(&self) -> (copy: Self)
        ensures
            copy@ == self@,
    {
        ProjectUrl { label: self.label.clone(), url: self.url.clone() }
    }
}

impl Clone for PyPIInfo {
    fn clone(&self) -> (copy: Self)
        ensures
            copy@ == self@,
    {
        let requires_python = match &self.requires_python {
            Some(text) => Some(text.clone()),
            None => None,
        };
        let requires_dist = match &self.requires_dist {
            Some(texts) => Some(copy_texts(texts)),
            None => None,
        };
        let project_urls = match &self.project_urls {
            Some(links) => {
                let mut copy: Vec<ProjectUrl> = Vec::new();
                let mut index: usize = 0;
                while index < links.len()
                    invariant
                        index <= links.len(),
                        copy.len() == index,
                        forall|i: int| 0 <= i < index ==> (#[trigger] copy[i])@ == links[i]@,
                    decreases links.len() - index,
                {
                    copy.push(links[index].clone());
                    index += 1;
                }
                assert(copy.deep_view() =~= links.deep_view());
                Some(copy)
            },
            None => None,
        };
        PyPIInfo {
            name: self.name.clone(),
            version: self.version.clone(),
            summary: self.summary.clone(),
            requires_python,
            requires_dist,
            project_urls,
        }
    }
}

impl Clone for PyPIResponse {
    fn clone(&self) -> (copy: Self)
        ensures
            copy@ == self@,
    {
        let mut urls: Vec<PyPIFileInfo> = Vec::new();
        let mut index: usize = 0;
        while index < self.urls.len()
            invariant
                index <= self.urls.len(),
                urls.len() == index,
                forall|i: int| 0 <= i < index ==> (#[trigger] urls[i])@ == self.urls[i]@,
            decreases self.urls.len() - index,
        {
            urls.push(self.urls[index].clone());
            index += 1;
        }
        assert(urls.deep_view() =~= self.urls.deep_view());
        PyPIResponse { info: self.info.clone(), urls }
    }
}

/// The packaging kind of a binary distribution.
pub open spec fn wheel_kind() -> Seq<char> {
    "bdist_wheel"@
}

/// The position of the first binary distribution among `files`, or the
/// number of files where there is none.
pub open spec fn first_wheel(files: Seq<PyPIFileInfoView>) -> int
    decreases files.len(),
{
    if files.len() == 0 {
        0
    } else if files.first().packagetype == wheel_kind() {
        0
    } else {
        1 + first_wheel(files.drop_first())
    }
}

/// `first_wheel` is the position of a binary distribution before which
/// there is none, or the number of files where none is binary.
pub proof fn lemma_first_wheel(files: Seq<PyPIFileInfoView>)
    ensures
        0 <= first_wheel(files) <= files.len(),
        first_wheel(files) < files.len() ==> files[first_wheel(files)].packagetype == wheel_kind(),
        forall|i: int| 0 <= i < first_wheel(files) ==> (#[trigger] files[i]).packagetype != wheel_kind(),
    decreases files.len(),
{
    if files.len() > 0 && files.first().packagetype != wheel_kind() {
        let rest = files.drop_first();
        lemma_first_wheel(rest);
        assert forall|i: int| 0 <= i < first_wheel(files) implies (#[trigger] files[i]).packagetype
            != wheel_kind() by {
            if i > 0 {
                assert(files[i] == rest[i - 1]);
            }
        }
    }
}

/// Finds the first binary distribution among `files`.
pub fn find_wheel(files: &[PyPIFileInfo]) -> (found: Option<&PyPIFileInfo>)
    ensures
        match found {
            Some(file) => 0 <= first_wheel(files.deep_view()) < files@.len() && *file
                == files@[first_wheel(files.deep_view())],
            None => first_wheel(files.deep_view()) == files@.len(),
        },
{
    let ghost all = files.deep_view();
    let mut index: usize = 0;
    assert(all.skip(0) =~= all);
    while index < files.len()
        invariant
            all == files.deep_view(),
            index <= files@.len(),
            first_wheel(all) == index + first_wheel(all.skip(index as int)),
        decreases files@.len() - index,
    {
        proof {
            let rest = all.skip(index as int);
            assert(rest.first() == files@[index as int]@);
            assert(rest.drop_first() =~= all.skip(index + 1));
        }
        if str_same(files[index].packagetype.as_str(), "bdist_wheel") {
            return Some(&files[index]);
        }
        index += 1;
    }
    proof {
        assert(all.skip(index as int).len() == 0);
    }
    None
}

/// The registry lists a binary distribution for the release.
pub open spec fn has_wheel(response: PyPIResponseView) -> bool {
    0 <= first_wheel(response.urls) < response.urls.len()
}

/// The binary distribution that is analysed: the first that is listed.
pub open spec fn wheel_of(response: PyPIResponseView) -> PyPIFileInfoView {
    response.urls[first_wheel(response.urls)]
}

/// The packages that a release requires; none where the registry says
/// nothing of them.
pub open spec fn dependencies_of(info: PyPIInfoView) -> Seq<Seq<char>> {
    match info.requires_dist {
        Some(specifiers) => specifiers,
        None => Seq::empty(),
    }
}

/// The package that the registry's answer is about.
pub open spec fn package_of(response: PyPIResponseView) -> PackageView {
    PackageView {
        name: response.info.name,
        version: response.info.version,
        dependencies: dependencies_of(response.info),
    }
}

/// The position of the first link labelled `label`, or the number of links
/// where none is.
pub open spec fn first_labelled(links: Seq<ProjectUrlView>, label: Seq<char>) -> int
    decreases links.len(),
{
    if links.len() == 0 {
        0
    } else if links.first().label == label {
        0
    } else {
        1 + first_labelled(links.drop_first(), label)
    }
}

/// The homepage of a release: the first of its links that is labelled
/// `Homepage`; empty where it has none.
pub open spec fn homepage_of(info: PyPIInfoView) -> Seq<char> {
    match info.project_urls {
        Some(links) => if first_labelled(links, "Homepage"@) < links.len() {
            links[first_labelled(links, "Homepage"@)].url
        } else {
            Seq::empty()
        },
        None => Seq::empty(),
    }
}

/// The size of the binary distribution of a release, where it has one.
pub open spec fn wheel_size_of(files: Seq<PyPIFileInfoView>) -> Option<u64> {
    if first_wheel(files) < files.len() {
        Some(files[first_wheel(files)].size)
    } else {
        None
    }
}

/// What is shown of the release that the registry's answer is about.
pub open spec fn metadata_of(response: PyPIResponseView) -> PyPIMetadataView {
    PyPIMetadataView {
        name: response.info.name,
        version: response.info.version,
        summary: response.info.summary,
        release_url: homepage_of(response.info),
        requires_python: response.info.requires_python,
        requires_dist: dependencies_of(response.info),
        package_size: wheel_size_of(response.urls),
    }
}

/// The address at which the registry answers for a package: for the version
/// asked for, or for its latest release where none is asked for.
pub open spec fn metadata_url_of(package_name: Seq<char>, version: Option<Seq<char>>) -> Seq<char> {
    match version {
        Some(version) => "https://pypi.org/pypi/"@ + package_name + "/"@ + version + "/json"@,
        None => "https://pypi.org/pypi/"@ + package_name + "/json"@,
    }
}

/// Builds the address at which the registry answers for a package.
pub fn metadata_url(package_name: &str, version: Option<&str>) -> (url: String)
    ensures
        url@ == metadata_url_of(
            package_name@,
            match version {
                Some(version) => Some(version@),
                None => None,
            },
        ),
{
    let url = String::from_str("https://pypi.org/pypi/").concat(package_name);
    match version {
        Some(version) => url.concat("/").concat(version).concat("/json"),
        None => url.concat("/json"),
    }
}

/// Finds the homepage among the links of a release.
fn find_homepage(links: &Vec<ProjectUrl>) -> (url: String)
    ensures
        url@ == if first_labelled(links.deep_view(), "Homepage"@) < links.len() {
            links.deep_view()[first_labelled(links.deep_view(), "Homepage"@)].url
        } else {
            Seq::empty()
        },
{
    let ghost all = links.deep_view();
    let mut index: usize = 0;
    assert(all.skip(0) =~= all);
    while index < links.len()
        invariant
            all == links.deep_view(),
            index <= links.len(),
            first_labelled(all, "Homepage"@) == index + first_labelled(
                all.skip(index as int),
                "Homepage"@,
            ),
        decreases links.len() - index,
    {
        proof {
            let rest = all.skip(index as int);
            assert(rest.first() == links[index as int]@);
            assert(rest.drop_first() =~= all.skip(index + 1));
        }
        if str_same(links[index].label.as_str(), "Homepage") {
            return links[index].url.clone();
        }
        index += 1;
    }
    proof {
        assert(all.skip(index as int).len() == 0);
    }
    String::new()
}

/// Makes the package that the registry's answer is about.
pub fn package_from(response: &PyPIResponse) -> (package: Package)
    ensures
        package@ == package_of(response@),
{
    let dependencies = match &response.info.requires_dist {
        Some(specifiers) => copy_texts(specifiers),
        None => Vec::new(),
    };
    let package = Package::new(
        response.info.name.clone(),
        response.info.version.clone(),
        dependencies,
    );
    assert(package@.dependencies =~= dependencies_of(response@.info));
    package
}

/// Reads out of the registry's answer what is shown of the release.
pub fn metadata_from(response: PyPIResponse) -> (metadata: PyPIMetadata)
    ensures
        metadata@ == metadata_of(response@),
{
    let release_url = match &response.info.project_urls {
        Some(links) => find_homepage(links),
        None => String::new(),
    };
    let files = response.urls.as_slice();
    assert(files.deep_view() =~= response.urls.deep_view());
    let package_size = match find_wheel(files) {
        Some(file) => {
            assert(files.deep_view()[first_wheel(files.deep_view())] == file@);
            Some(file.size)
        },
        None => None,
    };
    let requires_dist = match response.info.requires_dist {
        Some(specifiers) => specifiers,
        None => Vec::new(),
    };
    let metadata = PyPIMetadata {
        name: response.info.name,
        version: response.info.version,
        summary: response.info.summary,
        release_url,
        requires_python: response.info.requires_python,
        requires_dist,
        package_size,
    };
    assert(metadata@.requires_dist =~= dependencies_of(response@.info));
    metadata
}

} // verus!
