//! What a pass over the entries of an archive yields.

use crate::package::FileInfo;
use crate::package::FileInfoView;
use crate::package::Package;
use crate::package::PackageFootprint;
use crate::package::PackageFootprintView;
use crate::package::PackageView;
use crate::ranking::by_listing;
use crate::ranking::keeps_largest;
use crate::ranking::kept_count;
use crate::ranking::largest_of;
use crate::ranking::lemma_largest_keeps;
use crate::ranking::lemma_largest_sorted;
use crate::text::extension_of;
use crate::text::file_extension;
use crate::top_files::TopFiles;
use crate::type_counts::TypeCounts;
use vstd::prelude::*;
use vstd::relations::sorted_by;

verus! {

/// One entry of an archive's directory: its path, the size of what it holds
/// when unpacked, and whether it is a file (a directory is none).
#[derive(Debug)]
pub struct ArchiveEntry {
    pub path: String,
    pub size: u64,
    pub is_file: bool,
}

/// The mathematical value of an [`ArchiveEntry`].
#[verifier::ext_equal]
pub struct ArchiveEntryView {
    pub path: Seq<char>,
    pub size: u64,
    pub is_file: bool,
}

impl View for ArchiveEntry {
    type V = ArchiveEntryView;

    open spec fn view(&self) -> ArchiveEntryView {
        ArchiveEntryView { path: self.path@, size: self.size, is_file: self.is_file }
    }
}

impl DeepView for ArchiveEntry {
    type V = ArchiveEntryView;

    open spec fn deep_view(&self) -> ArchiveEntryView {
        self@
    }
}

impl Clone for ArchiveEntry {
    fn clone(&self) -> (copy: Self)
        ensures
            copy@ == self@,
    {
        ArchiveEntry { path: self.path.clone(), size: self.size, is_file: self.is_file }
    }
}

impl ArchiveEntry {
    /// Builds an entry from its three parts, which are kept as given.
    pub fn new(path: String, size: u64, is_file: bool) -> (entry: Self)
        ensures
            entry == (ArchiveEntry { path, size, is_file }),
    {
        Self { path, size, is_file }
    }
}

/// The record of the file that an entry describes.
pub open spec fn file_of(entry: ArchiveEntryView) -> FileInfoView {
    FileInfoView { path: entry.path, size: entry.size, file_type: extension_of(entry.path) }
}

/// The files among `entries`, in their order; directories are left out.
pub open spec fn files_of(entries: Seq<ArchiveEntryView>) -> Seq<FileInfoView>
    decreases entries.len(),
{
    if entries.len() == 0 {
        Seq::empty()
    } else if entries.last().is_file {
        files_of(entries.drop_last()).push(file_of(entries.last()))
    } else {
        files_of(entries.drop_last())
    }
}

/// The number of entries that are no files.
pub open spec fn directories_in(entries: Seq<ArchiveEntryView>) -> nat
    decreases entries.len(),
{
    if entries.len() == 0 {
        0
    } else if entries.last().is_file {
        directories_in(entries.drop_last())
    } else {
        (directories_in(entries.drop_last()) + 1) as nat
    }
}

/// The sizes of `files`, added up.
pub open spec fn size_sum(files: Seq<FileInfoView>) -> nat
    decreases files.len(),
{
    if files.len() == 0 {
        0
    } else {
        (size_sum(files.drop_last()) + files.last().size) as nat
    }
}

/// A total as a 64-bit number holds it: what is too large becomes the
/// largest number there is.
pub open spec fn saturated(total: nat) -> u64 {
    if total > u64::MAX {
        u64::MAX
    } else {
        total as u64
    }
}

/// The number of `files` whose type is `file_type`.
pub open spec fn count_of_type(files: Seq<FileInfoView>, file_type: Seq<char>) -> nat
    decreases files.len(),
{
    if files.len() == 0 {
        0
    } else if files.last().file_type == file_type {
        (count_of_type(files.drop_last(), file_type) + 1) as nat
    } else {
        count_of_type(files.drop_last(), file_type)
    }
}

/// For each type that occurs among `files`, the number of files of it.
pub open spec fn type_counts(files: Seq<FileInfoView>) -> Map<Seq<char>, nat> {
    Map::new(
        |file_type: Seq<char>| count_of_type(files, file_type) > 0,
        |file_type: Seq<char>| count_of_type(files, file_type),
    )
}

/// The types that occur among `files`, each once, in the order of their
/// first files.
pub open spec fn types_seen(files: Seq<FileInfoView>) -> Seq<Seq<char>>
    decreases files.len(),
{
    if files.len() == 0 {
        Seq::empty()
    } else if count_of_type(files.drop_last(), files.last().file_type) > 0 {
        types_seen(files.drop_last())
    } else {
        types_seen(files.drop_last()).push(files.last().file_type)
    }
}

/// The footprint of `package` when its archive lists `entries` and at most
/// `limit` of its largest files are reported.
pub open spec fn footprint_of(
    package: PackageView,
    entries: Seq<ArchiveEntryView>,
    limit: nat,
) -> PackageFootprintView {
    let files = files_of(entries);
    PackageFootprintView {
        package,
        total_size: saturated(size_sum(files)),
        file_count: files.len(),
        file_types: type_counts(files),
        largest_files: largest_of(files, limit),
    }
}

/// Every entry is a file or is none: the files and the others make up the
/// entries.
pub proof fn lemma_files_and_directories(entries: Seq<ArchiveEntryView>)
    ensures
        files_of(entries).len() + directories_in(entries) == entries.len(),
    decreases entries.len(),
{
    if entries.len() > 0 {
        lemma_files_and_directories(entries.drop_last());
    }
}

/// No type has more files than there are files.
pub proof fn lemma_count_of_type_bound(files: Seq<FileInfoView>, file_type: Seq<char>)
    ensures
        count_of_type(files, file_type) <= files.len(),
    decreases files.len(),
{
    if files.len() > 0 {
        lemma_count_of_type_bound(files.drop_last(), file_type);
    }
}

/// The number of times that `file_type` occurs in `types`.
pub open spec fn occurrences(types: Seq<Seq<char>>, file_type: Seq<char>) -> nat
    decreases types.len(),
{
    if types.len() == 0 {
        0
    } else if types.last() == file_type {
        (occurrences(types.drop_last(), file_type) + 1) as nat
    } else {
        occurrences(types.drop_last(), file_type)
    }
}

/// The counts of `files` for each of `types`, added up.
pub open spec fn counted(files: Seq<FileInfoView>, types: Seq<Seq<char>>) -> nat
    decreases types.len(),
{
    if types.len() == 0 {
        0
    } else {
        counted(files, types.drop_last()) + count_of_type(files, types.last())
    }
}

/// The types seen are those of which there is a file, each listed once.
pub proof fn lemma_types_seen(files: Seq<FileInfoView>, file_type: Seq<char>)
    ensures
        occurrences(types_seen(files), file_type) == if count_of_type(files, file_type) > 0 {
            1nat
        } else {
            0nat
        },
    decreases files.len(),
{
    if files.len() > 0 {
        let rest = files.drop_last();
        lemma_types_seen(rest, file_type);
        lemma_types_seen(rest, files.last().file_type);
        if count_of_type(rest, files.last().file_type) == 0 {
            assert(types_seen(files).drop_last() =~= types_seen(rest));
        }
    }
}

/// One more file adds to the sum of the counts as often as its type is
/// among the types counted.
proof fn lemma_counted_step(files: Seq<FileInfoView>, file: FileInfoView, types: Seq<Seq<char>>)
    ensures
        counted(files.push(file), types) == counted(files, types) + occurrences(
            types,
            file.file_type,
        ),
    decreases types.len(),
{
    assert(files.push(file).drop_last() =~= files);
    if types.len() > 0 {
        lemma_counted_step(files, file, types.drop_last());
    }
}

/// The counts of all the types that occur add up to the number of files.
pub proof fn lemma_counts_add_up(files: Seq<FileInfoView>)
    ensures
        counted(files, types_seen(files)) == files.len(),
    decreases files.len(),
{
    if files.len() > 0 {
        let rest = files.drop_last();
        let file = files.last();
        assert(rest.push(file) =~= files);
        lemma_counts_add_up(rest);
        lemma_types_seen(rest, file.file_type);
        lemma_counted_step(rest, file, types_seen(rest));
        if count_of_type(rest, file.file_type) == 0 {
            assert(types_seen(files).drop_last() =~= types_seen(rest));
        }
    }
}

/// The totals of a footprint do not depend on how many of the largest files
/// are reported, and where the sizes add up to no more than 64 bits hold,
/// the total size is their sum.
pub proof fn lemma_totals_ignore_limit(
    package: PackageView,
    entries: Seq<ArchiveEntryView>,
    limit: nat,
    other: nat,
)
    ensures
        footprint_of(package, entries, limit).total_size == footprint_of(
            package,
            entries,
            other,
        ).total_size,
        footprint_of(package, entries, limit).file_count == footprint_of(
            package,
            entries,
            other,
        ).file_count,
        footprint_of(package, entries, limit).file_types == footprint_of(
            package,
            entries,
            other,
        ).file_types,
        size_sum(files_of(entries)) <= u64::MAX ==> footprint_of(
            package,
            entries,
            limit,
        ).total_size == size_sum(files_of(entries)),
        footprint_of(package, entries, limit).file_count + directories_in(entries)
            == entries.len(),
{
    lemma_files_and_directories(entries);
}

/// With a limit of zero no file is reported.
pub proof fn lemma_no_limit_reports_nothing(package: PackageView, entries: Seq<ArchiveEntryView>)
    ensures
        footprint_of(package, entries, 0).largest_files == Seq::<FileInfoView>::empty(),
{
    assert(footprint_of(package, entries, 0).largest_files =~= Seq::<FileInfoView>::empty());
}

/// The files reported are the first in listing order: they are sorted, they
/// are files of the archive, there are as many as the limit allows, and no
/// file that is left out stands ahead of one that is reported.
pub proof fn lemma_reported_are_largest(
    package: PackageView,
    entries: Seq<ArchiveEntryView>,
    limit: nat,
)
    ensures
        sorted_by(footprint_of(package, entries, limit).largest_files, by_listing()),
        footprint_of(package, entries, limit).largest_files.len() == kept_count(
            limit,
            files_of(entries).len(),
        ),
        keeps_largest(
            footprint_of(package, entries, limit).largest_files.to_multiset(),
            files_of(entries).to_multiset(),
            limit,
        ),
{
    lemma_largest_sorted(files_of(entries), limit);
    lemma_largest_keeps(files_of(entries), limit);
}

/// A pass over the entries of one archive, fed one entry at a time. It holds
/// the running totals and the largest files seen so far, and needs no more
/// room than those take, however many entries it is fed.
pub struct Scanner {
    total_size: u64,
    file_count: usize,
    file_types: TypeCounts,
    largest: TopFiles,
    seen: Ghost<Seq<ArchiveEntryView>>,
}

impl Scanner {
    /// The entries fed so far, in their order.
    pub closed spec fn seen(&self) -> Seq<ArchiveEntryView> {
        self.seen@
    }

    /// The largest number of files that will be reported.
    pub closed spec fn limit(&self) -> nat {
        self.largest.limit()
    }

    /// The pass is well formed: what it holds is what the entries fed so far
    /// amount to.
    pub closed spec fn wf(&self) -> bool {
        let files = files_of(self.seen@);
        &&& self.file_count == files.len()
        &&& self.total_size == saturated(size_sum(files))
        &&& self.file_types.wf()
        &&& self.file_types@ == type_counts(files)
        &&& self.file_types.listed() == types_seen(files)
        &&& self.largest.wf()
        &&& self.largest.offered() == files
    }

    /// A pass that has seen no entry and will report at most `max_tracked`
    /// files.
    pub fn new(max_tracked: usize) -> (scanner: Self)
        ensures
            scanner.wf(),
            scanner.seen() == Seq::<ArchiveEntryView>::empty(),
            scanner.limit() == max_tracked,
    {
        let scanner = Scanner {
            total_size: 0,
            file_count: 0,
            file_types: TypeCounts::new(),
            largest: TopFiles::new(max_tracked),
            seen: Ghost(Seq::empty()),
        };
        assert(scanner.file_types@ =~= type_counts(files_of(scanner.seen@)));
        scanner
    }

    /// Feeds one more entry. A file adds to the totals and is offered to the
    /// selection of the largest files; a directory changes nothing.
    pub fn observe(&mut self, entry: ArchiveEntry)
        requires
            old(self).wf(),
            old(self).seen().len() < usize::MAX,
        ensures
            final(self).wf(),
            final(self).limit() == old(self).limit(),
            final(self).seen() == old(self).seen().push(entry@),
    {
        let ghost before = self.seen@;
        let ghost after = before.push(entry@);
        let ghost files = files_of(before);
        proof {
            assert(after.drop_last() =~= before);
            lemma_files_and_directories(before);
        }
        if entry.is_file {
            let file_type = file_extension(entry.path.as_str());
            let ghost record = file_of(entry@);
            proof {
                assert(files.push(record).drop_last() =~= files);
                lemma_count_of_type_bound(files, file_type@);
            }
            self.file_count = self.file_count + 1;
            self.total_size = self.total_size.saturating_add(entry.size);
            self.file_types.record(file_type.as_str());
            self.largest.offer(FileInfo::new(entry.path, entry.size, file_type));
            proof {
                assert(self.file_types@ =~= type_counts(files.push(record)));
            }
        }
        self.seen = Ghost(after);
    }

    /// Ends the pass and reports the footprint of `package`.
    pub fn finish(self, package: Package) -> (footprint: PackageFootprint)
        requires
            self.wf(),
        ensures
            footprint@ == footprint_of(package@, self.seen(), self.limit()),
            footprint.file_types.wf(),
            footprint.file_types.listed() == types_seen(files_of(self.seen())),
    {
        let largest_files = self.largest.into_sorted();
        PackageFootprint {
            package,
            total_size: self.total_size,
            file_count: self.file_count,
            file_types: self.file_types,
            largest_files,
        }
    }
}

/// Computes the footprint of `package` from the entries of its archive,
/// reporting at most `max_tracked` of its largest files.
pub fn scan_entries(package: Package, entries: &Vec<ArchiveEntry>, max_tracked: usize) -> (footprint:
    PackageFootprint)
    ensures
        footprint@ == footprint_of(package@, entries.deep_view(), max_tracked as nat),
        footprint.file_count + directories_in(entries.deep_view()) == entries.len(),
        footprint.file_types.wf(),
        footprint.file_types.listed() == types_seen(files_of(entries.deep_view())),
{
    let mut scanner = Scanner::new(max_tracked);
    let mut index: usize = 0;
    while index < entries.len()
        invariant
            index <= entries.len(),
            scanner.wf(),
            scanner.limit() == max_tracked,
            scanner.seen() == entries.deep_view().take(index as int),
        decreases entries.len() - index,
    {
        let entry = entries[index].clone();
        proof {
            assert(entries.deep_view().take(index as int).push(entry@) =~= entries.deep_view().take(
                index + 1,
            ));
        }
        scanner.observe(entry);
        index += 1;
    }
    proof {
        assert(entries.deep_view().take(index as int) =~= entries.deep_view());
        lemma_files_and_directories(entries.deep_view());
    }
    scanner.finish(package)
}

} // verus!
