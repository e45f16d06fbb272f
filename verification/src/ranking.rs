//! The listing order of files, and what it means to keep the largest of them.

use crate::package::FileInfoView;
use crate::package::listed_ahead;
use crate::package::listed_no_later;
use crate::text::lemma_text_before_total;
use crate::text::lemma_text_before_transitive;
use crate::text::text_before;
use vstd::multiset::Multiset;
use vstd::prelude::*;
use vstd::relations::sorted_by;
use vstd::relations::total_ordering;
use vstd::seq_lib::lemma_multiset_commutative;

verus! {

/// The listing order as a relation.
pub open spec fn by_listing() -> spec_fn(FileInfoView, FileInfoView) -> bool {
    |a: FileInfoView, b: FileInfoView| listed_no_later(a, b)
}

/// Any two records are ordered, and only one way unless they are the same.
pub proof fn lemma_listing_connected(a: FileInfoView, b: FileInfoView)
    ensures
        listed_no_later(a, b) || listed_no_later(b, a),
        listed_ahead(a, b) ==> !listed_no_later(b, a),
        listed_no_later(a, b) <==> !listed_ahead(b, a),
{
    lemma_text_before_total(a.path, b.path);
    lemma_text_before_total(b.path, a.path);
    lemma_text_before_total(a.file_type, b.file_type);
    lemma_text_before_total(b.file_type, a.file_type);
    if !listed_ahead(a, b) && !listed_ahead(b, a) {
        assert(a =~= b);
    }
}

/// The listing order is transitive.
pub proof fn lemma_listing_transitive(a: FileInfoView, b: FileInfoView, c: FileInfoView)
    requires
        listed_no_later(a, b),
        listed_no_later(b, c),
    ensures
        listed_no_later(a, c),
        listed_ahead(a, b) || listed_ahead(b, c) ==> listed_ahead(a, c),
{
    if a != b && b != c {
        lemma_text_before_total(a.path, b.path);
        lemma_text_before_total(b.path, c.path);
        if text_before(a.path, b.path) && text_before(b.path, c.path) {
            lemma_text_before_transitive(a.path, b.path, c.path);
        }
        if text_before(a.file_type, b.file_type) && text_before(b.file_type, c.file_type) {
            lemma_text_before_transitive(a.file_type, b.file_type, c.file_type);
        }
        lemma_listing_connected(a, c);
    }
}

/// The listing order is a total order on records.
pub proof fn lemma_listing_total_order()
    ensures
        total_ordering(by_listing()),
{
    let r = by_listing();
    assert forall|x: FileInfoView, y: FileInfoView| #[trigger] r(x, y) || #[trigger] r(y, x) by {
        lemma_listing_connected(x, y);
    }
    assert forall|x: FileInfoView, y: FileInfoView| #[trigger] r(x, y) && #[trigger] r(y, x)
        implies x == y by {
        lemma_listing_connected(x, y);
    }
    assert forall|x: FileInfoView, y: FileInfoView, z: FileInfoView| #[trigger]
        r(x, y) && #[trigger] r(y, z) implies r(x, z) by {
        lemma_listing_transitive(x, y, z);
    }
}

/// All of `files`, in listing order.
pub open spec fn ranked(files: Seq<FileInfoView>) -> Seq<FileInfoView> {
    files.sort_by(by_listing())
}

/// The number of records kept under `limit` out of `count`.
pub open spec fn kept_count(limit: nat, count: nat) -> nat {
    if limit <= count {
        limit
    } else {
        count
    }
}

/// The `limit` files that stand first when `files` are put in listing order,
/// or all of them where there are fewer.
pub open spec fn largest_of(files: Seq<FileInfoView>, limit: nat) -> Seq<FileInfoView> {
    ranked(files).take(kept_count(limit, files.len()) as int)
}

/// The first-listed records do not depend on the order in which the files
/// come: two sequences of the same files have the same first-listed records.
pub proof fn lemma_largest_ignores_order(
    files: Seq<FileInfoView>,
    shuffled: Seq<FileInfoView>,
    limit: nat,
)
    requires
        files.to_multiset() == shuffled.to_multiset(),
    ensures
        largest_of(files, limit) == largest_of(shuffled, limit),
{
    lemma_listing_total_order();
    files.lemma_sort_by_ensures(by_listing());
    shuffled.lemma_sort_by_ensures(by_listing());
    vstd::seq_lib::lemma_sorted_unique(ranked(files), ranked(shuffled), by_listing());
    vstd::seq_lib::to_multiset_len(files);
    vstd::seq_lib::to_multiset_len(shuffled);
}

/// `kept` is a choice of the first-listed records of `all`: it holds `limit`
/// of them, or all where there are fewer, and none that was left out stands
/// ahead of one that was kept.
pub open spec fn keeps_largest(
    kept: Multiset<FileInfoView>,
    all: Multiset<FileInfoView>,
    limit: nat,
) -> bool {
    &&& kept.subset_of(all)
    &&& kept.len() == kept_count(limit, all.len())
    &&& forall|x: FileInfoView, y: FileInfoView|
        #[trigger] kept.contains(x) && #[trigger] all.sub(kept).contains(y) ==> listed_no_later(
            x,
            y,
        )
}

/// The first-listed records form a sorted sequence.
pub proof fn lemma_largest_sorted(files: Seq<FileInfoView>, limit: nat)
    ensures
        sorted_by(largest_of(files, limit), by_listing()),
        largest_of(files, limit).len() == kept_count(limit, files.len()),
{
    lemma_listing_total_order();
    files.lemma_sort_by_ensures(by_listing());
    vstd::seq_lib::to_multiset_len(files);
    vstd::seq_lib::to_multiset_len(ranked(files));
}

/// What `largest_of` yields is a choice of the first-listed records.
pub proof fn lemma_largest_keeps(files: Seq<FileInfoView>, limit: nat)
    ensures
        keeps_largest(largest_of(files, limit).to_multiset(), files.to_multiset(), limit),
{
    broadcast use vstd::multiset::group_multiset_axioms;

    lemma_listing_total_order();
    lemma_largest_sorted(files, limit);
    files.lemma_sort_by_ensures(by_listing());
    let all = ranked(files);
    vstd::seq_lib::to_multiset_len(all);
    vstd::seq_lib::to_multiset_len(files);
    let keep = kept_count(limit, files.len()) as int;
    let head = all.take(keep);
    let tail = all.skip(keep);
    assert(all =~= head + tail);
    lemma_multiset_commutative(head, tail);
    vstd::seq_lib::to_multiset_len(head);
    vstd::seq_lib::to_multiset_len(files);
    let kept = head.to_multiset();
    let whole = files.to_multiset();
    assert(whole.sub(kept) =~= tail.to_multiset());
    assert forall|x: FileInfoView, y: FileInfoView|
        #[trigger] kept.contains(x) && #[trigger] whole.sub(kept).contains(y) implies listed_no_later(
        x,
        y,
    ) by {
        vstd::seq_lib::to_multiset_contains(head, x);
        vstd::seq_lib::to_multiset_contains(tail, y);
        let i = choose|i: int| 0 <= i < head.len() && head[i] == x;
        let j = choose|j: int| 0 <= j < tail.len() && tail[j] == y;
        assert(by_listing()(all[i], all[keep + j]));
    }
}

/// A multiset that lies within another of the same length is that other.
pub proof fn lemma_subset_of_same_len<A>(inner: Multiset<A>, outer: Multiset<A>)
    requires
        inner.subset_of(outer),
        inner.len() == outer.len(),
    ensures
        inner == outer,
{
    broadcast use vstd::multiset::group_multiset_axioms;

    let rest = outer.sub(inner);
    vstd::multiset::lemma_multiset_empty_len(rest);
    assert forall|v: A| inner.count(v) == outer.count(v) by {
        assert(rest.count(v) == 0);
    }
    assert(inner =~= outer);
}

/// There is only one choice of the first-listed records.
pub proof fn lemma_keeps_unique(
    first: Multiset<FileInfoView>,
    second: Multiset<FileInfoView>,
    all: Multiset<FileInfoView>,
    limit: nat,
)
    requires
        keeps_largest(first, all, limit),
        keeps_largest(second, all, limit),
    ensures
        first == second,
{
    broadcast use vstd::multiset::group_multiset_axioms;

    if first != second {
        assert(!(first =~= second));
        if second.subset_of(first) {
            lemma_subset_of_same_len(second, first);
        }
        if first.subset_of(second) {
            lemma_subset_of_same_len(first, second);
        }
        let x = choose|x: FileInfoView| first.count(x) > second.count(x);
        let y = choose|y: FileInfoView| second.count(y) > first.count(y);
        assert(first.contains(x));
        assert(all.sub(second).contains(x));
        assert(second.contains(y));
        assert(all.sub(first).contains(y));
        lemma_listing_connected(x, y);
    }
}

/// `worst` is a record of `kept` that none of `kept` stands behind.
pub open spec fn is_last_of(worst: FileInfoView, kept: Multiset<FileInfoView>) -> bool {
    &&& kept.contains(worst)
    &&& forall|x: FileInfoView| #[trigger] kept.contains(x) ==> listed_no_later(x, worst)
}

/// What is kept once `file` has been offered to a selection that is limited
/// to `limit` records and whose last record is `worst`: while there is room
/// the file is added; after that it takes the place of `worst` where it
/// stands strictly ahead of it, and is dropped otherwise.
pub open spec fn after_offer(
    kept: Multiset<FileInfoView>,
    limit: nat,
    worst: FileInfoView,
    file: FileInfoView,
) -> Multiset<FileInfoView> {
    if kept.len() < limit {
        kept.insert(file)
    } else if limit > 0 && listed_ahead(file, worst) {
        kept.remove(worst).insert(file)
    } else {
        kept
    }
}

/// Offering a record to a choice of the first-listed records of `all` gives
/// a choice of the first-listed records of `all` and the new record.
pub proof fn lemma_offer_keeps(
    kept: Multiset<FileInfoView>,
    all: Multiset<FileInfoView>,
    limit: nat,
    worst: FileInfoView,
    file: FileInfoView,
)
    requires
        keeps_largest(kept, all, limit),
        kept.len() > 0 ==> is_last_of(worst, kept),
    ensures
        keeps_largest(after_offer(kept, limit, worst, file), all.insert(file), limit),
{
    broadcast use vstd::multiset::group_multiset_axioms;

    let next = after_offer(kept, limit, worst, file);
    let more = all.insert(file);
    if kept.len() < limit {
        lemma_subset_of_same_len(kept, all);
        assert(more.sub(next) =~= Multiset::empty());
    } else if limit > 0 && listed_ahead(file, worst) {
        assert(more.sub(next) =~= all.sub(kept).insert(worst));
        assert forall|x: FileInfoView, y: FileInfoView|
            #[trigger] next.contains(x) && #[trigger] more.sub(next).contains(y) implies listed_no_later(
            x,
            y,
        ) by {
            assert(x == file || kept.contains(x));
            assert(y == worst || all.sub(kept).contains(y));
            assert(listed_no_later(x, worst));
            if y != worst {
                assert(listed_no_later(worst, y));
                lemma_listing_transitive(x, worst, y);
            }
        }
    } else {
        assert(more.sub(next) =~= all.sub(kept).insert(file));
        assert forall|x: FileInfoView, y: FileInfoView|
            #[trigger] next.contains(x) && #[trigger] more.sub(next).contains(y) implies listed_no_later(
            x,
            y,
        ) by {
            assert(y == file || all.sub(kept).contains(y));
            if y == file && !all.sub(kept).contains(y) {
                assert(listed_no_later(x, worst));
                lemma_listing_connected(worst, file);
                lemma_listing_transitive(x, worst, file);
            }
        }
    }
}

} // verus!
