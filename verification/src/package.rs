//! The plain data that a footprint report is made of.

use crate::text::copy_texts;
use crate::text::lemma_text_before_total;
use crate::text::str_before;
use crate::text::str_same;
use crate::text::text_before;
use crate::type_counts::TypeCounts;
use std::cmp::Ordering;
use vstd::prelude::*;
use vstd::std_specs::cmp::PartialEqSpecImpl;
use vstd::std_specs::cmp::PartialOrdSpecImpl;

verus! {

/// A published package: its registry name, its exact version, and the raw
/// dependency specifiers it declares, in the order the registry lists them.
#[derive(Debug)]
pub struct Package {
    pub name: String,
    pub version: String,
    pub dependencies: Vec<String>,
}

/// The mathematical value of a [`Package`].
#[verifier::ext_equal]
pub struct PackageView {
    pub name: Seq<char>,
    pub version: Seq<char>,
    pub dependencies: Seq<Seq<char>>,
}

impl View for Package {
    type V = PackageView;

    open spec fn view(&self) -> PackageView {
        PackageView {
            name: self.name@,
            version: self.version@,
            dependencies: self.dependencies.deep_view(),
        }
    }
}

impl Package {
    /// Builds a package from its three parts, which are kept as given.
    pub fn new(name: String, version: String, dependencies: Vec<String>) -> (package: Self)
        ensures
            package == (Package { name, version, dependencies }),
    {
        Self { name, version, dependencies }
    }
}

impl Clone for Package {
    fn clone(&self) -> (copy: Self)
        ensures
            copy@ == self@,
    {
        Package {
            name: self.name.clone(),
            version: self.version.clone(),
            dependencies: copy_texts(&self.dependencies),
        }
    }
}

/// The footprint of one package: the package itself, the bytes and the number
/// of its files, how many there are of each type, and its largest files,
/// first-listed first.
pub struct PackageFootprint {
    pub package: Package,
    pub total_size: u64,
    pub file_count: usize,
    pub file_types: TypeCounts,
    pub largest_files: Vec<FileInfo>,
}

/// The mathematical value of a [`PackageFootprint`].
#[verifier::ext_equal]
pub struct PackageFootprintView {
    pub package: PackageView,
    pub total_size: u64,
    pub file_count: nat,
    pub file_types: Map<Seq<char>, nat>,
    pub largest_files: Seq<FileInfoView>,
}

impl View for PackageFootprint {
    type V = PackageFootprintView;

    open spec fn view(&self) -> PackageFootprintView {
        PackageFootprintView {
            package: self.package@,
            total_size: self.total_size,
            file_count: self.file_count as nat,
            file_types: self.file_types@,
            largest_files: self.largest_files.deep_view(),
        }
    }
}

impl PackageFootprint {
    /// The footprint of a package of which no file has been counted yet.
    pub fn new(package: Package) -> (footprint: Self)
        ensures
            footprint.package == package,
            footprint.total_size == 0,
            footprint.file_count == 0,
            footprint.file_types.wf(),
            footprint.file_types@ == Map::<Seq<char>, nat>::empty(),
            footprint.file_types.listed() == Seq::<Seq<char>>::empty(),
            footprint.largest_files@ == Seq::<FileInfo>::empty(),
    {
        Self {
            package,
            total_size: 0,
            file_count: 0,
            file_types: TypeCounts::new(),
            largest_files: Vec::new(),
        }
    }
}

impl Clone for PackageFootprint {
    fn clone(&self) -> (copy: Self)
        ensures
            self.file_types.wf() ==> copy@ == self@ && copy.file_types.wf()
                && copy.file_types.listed() == self.file_types.listed(),
    {
        let mut largest_files: Vec<FileInfo> = Vec::new();
        let mut index: usize = 0;
        while index < self.largest_files.len()
            invariant
                index <= self.largest_files.len(),
                largest_files.len() == index,
                forall|i: int| 0 <= i < index ==> (#[trigger] largest_files[i])@ == self.largest_files[i]@,
            decreases self.largest_files.len() - index,
        {
            largest_files.push(self.largest_files[index].clone());
            index += 1;
        }
        assert(largest_files.deep_view() =~= self.largest_files.deep_view());
        PackageFootprint {
            package: self.package.clone(),
            total_size: self.total_size,
            file_count: self.file_count,
            file_types: self.file_types.clone(),
            largest_files,
        }
    }
}

/// One file of an archive: where it lies, how many bytes it takes when
/// unpacked, and the type that its path stands for.
///
/// Files are ordered by weight: a file is greater than another when it is the
/// larger of the two, or when both have one size and its path sorts first.
/// Two files with one size and one path are equal, whatever their type.
#[derive(Debug)]
pub struct FileInfo {
    pub path: String,
    pub size: u64,
    pub file_type: String,
}

/// The mathematical value of a [`FileInfo`].
#[verifier::ext_equal]
pub struct FileInfoView {
    pub path: Seq<char>,
    pub size: u64,
    pub file_type: Seq<char>,
}

impl View for FileInfo {
    type V = FileInfoView;

    open spec fn view(&self) -> FileInfoView {
        FileInfoView { path: self.path@, size: self.size, file_type: self.file_type@ }
    }
}

impl DeepView for FileInfo {
    type V = FileInfoView;

    open spec fn deep_view(&self) -> FileInfoView {
        self@
    }
}

/// `a` is listed strictly ahead of `b`: it is larger, or as large with a path
/// that sorts first.
pub open spec fn outranks(a: FileInfoView, b: FileInfoView) -> bool {
    a.size > b.size || (a.size == b.size && text_before(a.path, b.path))
}

/// Neither file is listed ahead of the other: they have one size and one path.
pub open spec fn same_rank(a: FileInfoView, b: FileInfoView) -> bool {
    a.size == b.size && a.path == b.path
}

/// The order in which files are listed: by size, largest first; among files of
/// one size by path; and, so that any two distinct records are ordered, among
/// records of one size and path by type. `a` stands strictly ahead of `b`.
pub open spec fn listed_ahead(a: FileInfoView, b: FileInfoView) -> bool {
    outranks(a, b) || (same_rank(a, b) && text_before(a.file_type, b.file_type))
}

/// `a` stands ahead of `b` in the listing order, or is the same record.
pub open spec fn listed_no_later(a: FileInfoView, b: FileInfoView) -> bool {
    a == b || listed_ahead(a, b)
}

/// Of two files, one outranks the other unless they have the same size and
/// path, and never both ways.
pub proof fn lemma_outranks_total(a: FileInfoView, b: FileInfoView)
    ensures
        !outranks(a, a),
        outranks(a, b) ==> !outranks(b, a),
        outranks(a, b) || outranks(b, a) || same_rank(a, b),
{
    lemma_text_before_total(a.path, b.path);
    lemma_text_before_total(a.path, a.path);
}

impl FileInfo {
    /// Builds a file record from its three parts, which are kept as given.
    pub fn new(path: String, size: u64, file_type: String) -> (file: Self)
        ensures
            file == (FileInfo { path, size, file_type }),
    {
        Self { path, size, file_type }
    }

    /// Tells whether this file is listed strictly ahead of `other`.
    pub fn outranks(&self, other: &FileInfo) -> (ahead: bool)
        ensures
            ahead == outranks(self@, other@),
    {
        if self.size != other.size {
            self.size > other.size
        } else {
            str_before(self.path.as_str(), other.path.as_str())
        }
    }

    /// Tells whether this record stands strictly ahead of `other` in the
    /// listing order.
    pub fn listed_ahead(&self, other: &FileInfo) -> (ahead: bool)
        ensures
            ahead == listed_ahead(self@, other@),
    {
        if self.size != other.size {
            self.size > other.size
        } else if str_same(self.path.as_str(), other.path.as_str()) {
            proof {
                lemma_text_before_total(self.path@, other.path@);
            }
            str_before(self.file_type.as_str(), other.file_type.as_str())
        } else {
            str_before(self.path.as_str(), other.path.as_str())
        }
    }

    /// Compares two files by weight: `Greater` where this one is listed ahead
    /// of `other`, `Less` where it is listed behind, `Equal` where size and
    /// path agree.
    pub fn cmp(&self, other: &FileInfo) -> (order: Ordering)
        ensures
            order == weigh(self@, other@),
    {
        if self.outranks(other) {
            Ordering::Greater
        } else if other.outranks(self) {
            Ordering::Less
        } else {
            proof {
                lemma_outranks_total(self@, other@);
            }
            Ordering::Equal
        }
    }
}

/// The result of comparing `a` with `b` by weight.
pub open spec fn weigh(a: FileInfoView, b: FileInfoView) -> Ordering {
    if outranks(a, b) {
        Ordering::Greater
    } else if outranks(b, a) {
        Ordering::Less
    } else {
        Ordering::Equal
    }
}

impl Clone for FileInfo {
    fn clone(&self) -> (copy: Self)
        ensures
            copy@ == self@,
    {
        FileInfo {
            path: self.path.clone(),
            size: self.size,
            file_type: self.file_type.clone(),
        }
    }
}

impl PartialEq for FileInfo {
    fn eq(&self, other: &Self) -> (same: bool) {
        self.size == other.size && self.path == other.path
    }
}

impl PartialEqSpecImpl for FileInfo {
    open spec fn obeys_eq_spec() -> bool {
        true
    }

    open spec fn eq_spec(&self, other: &Self) -> bool {
        self.size == other.size && self.path@ == other.path@
    }
}

impl Eq for FileInfo {

}

impl PartialOrd for FileInfo {
    fn partial_cmp(&self, other: &Self) -> (order: Option<Ordering>) {
        Some(self.cmp(other))
    }
}

impl PartialOrdSpecImpl for FileInfo {
    open spec fn obeys_partial_cmp_spec() -> bool {
        true
    }

    open spec fn partial_cmp_spec(&self, other: &Self) -> Option<Ordering> {
        Some(weigh(self@, other@))
    }
}

/// What is shown of a release: its name and version, its summary, its
/// homepage, the interpreter versions and the packages it requires, and the
/// size of its binary distribution where it has one.
#[derive(Debug)]
pub struct PyPIMetadata {
    pub name: String,
    pub version: String,
    pub summary: String,
    pub release_url: String,
    pub requires_python: Option<String>,
    pub requires_dist: Vec<String>,
    pub package_size: Option<u64>,
}

impl Clone for PyPIMetadata {
    fn clone(&self) -> (copy: Self)
        ensures
            copy@ == self@,
    {
        let requires_python = match &self.requires_python {
            Some(text) => Some(text.clone()),
            None => None,
        };
        PyPIMetadata {
            name: self.name.clone(),
            version: self.version.clone(),
            summary: self.summary.clone(),
            release_url: self.release_url.clone(),
            requires_python,
            requires_dist: copy_texts(&self.requires_dist),
            package_size: self.package_size,
        }
    }
}

/// The mathematical value of a [`PyPIMetadata`].
#[verifier::ext_equal]
pub struct PyPIMetadataView {
    pub name: Seq<char>,
    pub version: Seq<char>,
    pub summary: Seq<char>,
    pub release_url: Seq<char>,
    pub requires_python: Option<Seq<char>>,
    pub requires_dist: Seq<Seq<char>>,
    pub package_size: Option<u64>,
}

impl View for PyPIMetadata {
    type V = PyPIMetadataView;

    open spec fn view(&self) -> PyPIMetadataView {
        PyPIMetadataView {
            name: self.name@,
            version: self.version@,
            summary: self.summary@,
            release_url: self.release_url@,
            requires_python: self.requires_python.deep_view(),
            requires_dist: self.requires_dist.deep_view(),
            package_size: self.package_size,
        }
    }
}

} // verus!
