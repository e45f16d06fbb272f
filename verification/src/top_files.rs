//! A selection of bounded size that keeps the first-listed of the files it is
//! offered.

use crate::package::FileInfo;
use crate::package::FileInfoView;
use crate::package::listed_ahead;
use crate::package::listed_no_later;
use crate::ranking::by_listing;
use crate::ranking::is_last_of;
use crate::ranking::keeps_largest;
use crate::ranking::kept_count;
use crate::ranking::largest_of;
use crate::ranking::lemma_keeps_unique;
use crate::ranking::lemma_largest_keeps;
use crate::ranking::lemma_largest_sorted;
use crate::ranking::lemma_listing_connected;
use crate::ranking::lemma_listing_total_order;
use crate::ranking::lemma_listing_transitive;
use crate::ranking::lemma_offer_keeps;
use vstd::multiset::Multiset;
use vstd::prelude::*;
use vstd::relations::sorted_by;
use vstd::seq_lib::lemma_sorted_unique;

verus! {

/// The records are laid out as a binary heap whose root is the record that
/// stands last: the record at `child` does not stand behind its parent.
spec fn in_order_at(heap: Seq<FileInfoView>, child: int) -> bool {
    listed_no_later(heap[child], heap[(child - 1) / 2])
}

/// Every record but the root is in order with its parent.
spec fn is_heap(heap: Seq<FileInfoView>) -> bool {
    forall|child: int| 1 <= child < heap.len() ==> #[trigger] in_order_at(heap, child)
}

/// A heap but for the record at `at`, which may stand behind its parent.
spec fn is_heap_but_above(heap: Seq<FileInfoView>, at: int) -> bool {
    &&& forall|child: int|
        1 <= child < heap.len() && child != at ==> #[trigger] in_order_at(heap, child)
    &&& at > 0 ==> forall|child: int|
        1 <= child < heap.len() && (child - 1) / 2 == at ==> #[trigger] listed_no_later(
            heap[child],
            heap[(at - 1) / 2],
        )
}

/// A heap but for the record at `at`, which may stand ahead of its children.
spec fn is_heap_but_below(heap: Seq<FileInfoView>, at: int) -> bool {
    &&& forall|child: int|
        1 <= child < heap.len() && (child - 1) / 2 != at ==> #[trigger] in_order_at(heap, child)
    &&& at > 0 ==> forall|child: int|
        1 <= child < heap.len() && (child - 1) / 2 == at ==> #[trigger] listed_no_later(
            heap[child],
            heap[(at - 1) / 2],
        )
}

/// In a heap no record stands behind the root.
proof fn lemma_root_stands_last(heap: Seq<FileInfoView>, at: int)
    requires
        is_heap(heap),
        0 <= at < heap.len(),
    ensures
        listed_no_later(heap[at], heap[0]),
    decreases at,
{
    if at > 0 {
        assert(in_order_at(heap, at));
        lemma_root_stands_last(heap, (at - 1) / 2);
        lemma_listing_transitive(heap[at], heap[(at - 1) / 2], heap[0]);
    }
}

/// The root of a heap is the last of its records.
proof fn lemma_root_is_last(heap: Seq<FileInfoView>)
    requires
        is_heap(heap),
        heap.len() > 0,
    ensures
        is_last_of(heap[0], heap.to_multiset()),
{
    let kept = heap.to_multiset();
    vstd::seq_lib::to_multiset_contains(heap, heap[0]);
    assert forall|x: FileInfoView| #[trigger] kept.contains(x) implies listed_no_later(
        x,
        heap[0],
    ) by {
        vstd::seq_lib::to_multiset_contains(heap, x);
        let at = choose|at: int| 0 <= at < heap.len() && heap[at] == x;
        lemma_root_stands_last(heap, at);
    }
}

/// Exchanges two records of a vector.
fn exchange(items: &mut Vec<FileInfo>, low: usize, high: usize)
    requires
        low < high < old(items).len(),
    ensures
        final(items)@ == old(items)@.update(low as int, old(items)@[high as int]).update(
            high as int,
            old(items)@[low as int],
        ),
{
    let (head, tail) = items.as_mut_slice().split_at_mut(high);
    core::mem::swap(&mut head[low], &mut tail[0]);
}

/// The records of a sequence, as values.
spec fn records(items: Seq<FileInfo>) -> Seq<FileInfoView> {
    items.map_values(|file: FileInfo| file@)
}

/// No records make an empty multiset.
proof fn lemma_no_records()
    ensures
        Seq::<FileInfoView>::empty().to_multiset() == Multiset::<FileInfoView>::empty(),
{
    let none = Seq::<FileInfoView>::empty();
    vstd::seq_lib::to_multiset_len(none);
    vstd::multiset::lemma_multiset_empty_len(none.to_multiset());
}

/// Exchanging two records leaves the same records.
proof fn lemma_exchange_keeps_records(heap: Seq<FileInfoView>, low: int, high: int)
    requires
        0 <= low < high < heap.len(),
    ensures
        heap.update(low, heap[high]).update(high, heap[low]).to_multiset() == heap.to_multiset(),
{
    broadcast use vstd::multiset::group_multiset_axioms;

    let first = heap.update(low, heap[high]);
    vstd::seq_lib::to_multiset_update(heap, low, heap[high]);
    vstd::seq_lib::to_multiset_update(first, high, heap[low]);
    vstd::seq_lib::to_multiset_contains(heap, heap[low]);
    vstd::seq_lib::to_multiset_contains(heap, heap[high]);
    assert(first.update(high, heap[low]).to_multiset() =~= heap.to_multiset());
}

/// Moves the record at `start` towards the root until its parent no longer
/// stands ahead of it.
fn sift_up(items: &mut Vec<FileInfo>, start: usize)
    requires
        start < old(items).len(),
        is_heap_but_above(records(old(items)@), start as int),
    ensures
        is_heap(records(final(items)@)),
        records(final(items)@).to_multiset() == records(old(items)@).to_multiset(),
        final(items).len() == old(items).len(),
{
    let mut at = start;
    while at > 0
        invariant
            at < items.len(),
            items.len() == old(items).len(),
            is_heap_but_above(records(items@), at as int),
            records(items@).to_multiset() == records(old(items)@).to_multiset(),
        ensures
            is_heap(records(items@)),
            items.len() == old(items).len(),
            records(items@).to_multiset() == records(old(items)@).to_multiset(),
        decreases at,
    {
        let parent = (at - 1) / 2;
        let ghost before = records(items@);
        if items[parent].listed_ahead(&items[at]) {
            exchange(items, parent, at);
            proof {
                let after = records(items@);
                assert(after =~= before.update(parent as int, before[at as int]).update(
                    at as int,
                    before[parent as int],
                ));
                lemma_exchange_keeps_records(before, parent as int, at as int);
                lemma_sift_up_step(before, after, at as int);
            }
            at = parent;
        } else {
            proof {
                lemma_listing_connected(before[at as int], before[parent as int]);
                assert(in_order_at(before, at as int));
            }
            break;
        }
    }
}

/// One step of `sift_up`: with the record at `at` and its parent exchanged,
/// only the parent may still stand behind its own parent.
proof fn lemma_sift_up_step(before: Seq<FileInfoView>, after: Seq<FileInfoView>, at: int)
    requires
        0 < at < before.len(),
        is_heap_but_above(before, at),
        listed_ahead(before[(at - 1) / 2], before[at]),
        after == before.update((at - 1) / 2, before[at]).update(at, before[(at - 1) / 2]),
    ensures
        is_heap_but_above(after, (at - 1) / 2),
{
    let parent = (at - 1) / 2;
    let moved = before[at];
    let lowered = before[parent];
    assert forall|child: int| 1 <= child < after.len() && child != parent implies #[trigger] in_order_at(
        after,
        child,
    ) by {
        if child == at {
        } else if (child - 1) / 2 == at {
            assert(listed_no_later(before[child], before[(at - 1) / 2]));
        } else if (child - 1) / 2 == parent {
            assert(in_order_at(before, child));
            lemma_listing_transitive(before[child], lowered, moved);
        } else {
            assert(in_order_at(before, child));
        }
    }
    if parent > 0 {
        assert(in_order_at(before, parent));
        assert forall|child: int|
            1 <= child < after.len() && (child - 1) / 2 == parent implies #[trigger] listed_no_later(
            after[child],
            after[(parent - 1) / 2],
        ) by {
            if child != at {
                assert(in_order_at(before, child));
                lemma_listing_transitive(before[child], lowered, before[(parent - 1) / 2]);
            }
        }
    }
}

/// Moves the root away from the root until it no longer stands ahead of one
/// of its children.
fn sift_down(items: &mut Vec<FileInfo>)
    requires
        is_heap_but_below(records(old(items)@), 0),
    ensures
        is_heap(records(final(items)@)),
        records(final(items)@).to_multiset() == records(old(items)@).to_multiset(),
        final(items).len() == old(items).len(),
{
    let count = items.len();
    let mut at: usize = 0;
    while at < count / 2
        invariant
            count == items.len(),
            items.len() == old(items).len(),
            at < count || count == 0,
            is_heap_but_below(records(items@), at as int),
            records(items@).to_multiset() == records(old(items)@).to_multiset(),
        ensures
            is_heap(records(items@)),
            items.len() == old(items).len(),
            records(items@).to_multiset() == records(old(items)@).to_multiset(),
        decreases count - at,
    {
        let left = 2 * at + 1;
        let right = left + 1;
        let ghost before = records(items@);
        let later = if right < count && items[left].listed_ahead(&items[right]) {
            right
        } else {
            left
        };
        proof {
            if right < count {
                lemma_listing_connected(before[left as int], before[right as int]);
            }
        }
        if items[at].listed_ahead(&items[later]) {
            exchange(items, at, later);
            proof {
                let after = records(items@);
                assert(after =~= before.update(at as int, before[later as int]).update(
                    later as int,
                    before[at as int],
                ));
                lemma_exchange_keeps_records(before, at as int, later as int);
                lemma_sift_down_step(before, after, at as int, later as int);
            }
            at = later;
        } else {
            proof {
                lemma_listing_connected(before[later as int], before[at as int]);
                assert forall|child: int| 1 <= child < before.len() implies #[trigger] in_order_at(
                    before,
                    child,
                ) by {
                    if (child - 1) / 2 == at && child != later {
                        lemma_listing_transitive(
                            before[child],
                            before[later as int],
                            before[at as int],
                        );
                    }
                }
            }
            break;
        }
    }
}

/// One step of `sift_down`: with the record at `at` and the later of its
/// children exchanged, only that child's place may still be out of order
/// with what lies below it.
proof fn lemma_sift_down_step(
    before: Seq<FileInfoView>,
    after: Seq<FileInfoView>,
    at: int,
    later: int,
)
    requires
        0 <= at < later < before.len(),
        (later - 1) / 2 == at,
        is_heap_but_below(before, at),
        forall|child: int|
            1 <= child < before.len() && (child - 1) / 2 == at ==> listed_no_later(
                #[trigger] before[child],
                before[later],
            ),
        listed_ahead(before[at], before[later]),
        after == before.update(at, before[later]).update(later, before[at]),
    ensures
        is_heap_but_below(after, later),
{
    assert forall|child: int|
        1 <= child < after.len() && (child - 1) / 2 != later implies #[trigger] in_order_at(
        after,
        child,
    ) by {
        if child == later {
        } else if (child - 1) / 2 == at {
            assert(listed_no_later(before[child], before[later]));
        } else if child == at {
            assert(listed_no_later(before[later], before[(at - 1) / 2]));
        } else {
            assert(in_order_at(before, child));
        }
    }
    assert forall|child: int|
        1 <= child < after.len() && (child - 1) / 2 == later implies #[trigger] listed_no_later(
        after[child],
        after[(later - 1) / 2],
    ) by {
        assert(in_order_at(before, child));
    }
}

/// A selection of at most `limit` files: of all the files it has been
/// offered it holds those that stand first in the listing order. It needs
/// room for `limit` records, however many are offered.
pub struct TopFiles {
    items: Vec<FileInfo>,
    limit: usize,
    offered: Ghost<Seq<FileInfoView>>,
}

impl TopFiles {
    /// The largest number of files that the selection holds.
    pub closed spec fn limit(&self) -> nat {
        self.limit as nat
    }

    /// Every file that has been offered, in the order of the offers.
    pub closed spec fn offered(&self) -> Seq<FileInfoView> {
        self.offered@
    }

    /// The files that the selection holds.
    pub closed spec fn kept(&self) -> Multiset<FileInfoView> {
        records(self.items@).to_multiset()
    }

    /// The selection is well formed: it holds the first-listed of the files
    /// it was offered, laid out as a heap.
    pub closed spec fn wf(&self) -> bool {
        &&& self.items.len() <= self.limit
        &&& is_heap(records(self.items@))
        &&& keeps_largest(self.kept(), self.offered@.to_multiset(), self.limit as nat)
    }

    /// A well-formed selection holds exactly the first-listed of the files it
    /// was offered.
    pub proof fn lemma_kept(&self)
        requires
            self.wf(),
        ensures
            self.kept() == largest_of(self.offered(), self.limit()).to_multiset(),
    {
        lemma_largest_keeps(self.offered@, self.limit as nat);
        lemma_keeps_unique(
            self.kept(),
            largest_of(self.offered@, self.limit as nat).to_multiset(),
            self.offered@.to_multiset(),
            self.limit as nat,
        );
    }

    /// An empty selection that will hold up to `limit` files.
    pub fn new(limit: usize) -> (selection: Self)
        ensures
            selection.wf(),
            selection.limit() == limit,
            selection.offered() == Seq::<FileInfoView>::empty(),
    {
        let selection = TopFiles { items: Vec::new(), limit, offered: Ghost(Seq::empty()) };
        proof {
            broadcast use vstd::multiset::group_multiset_axioms;

            lemma_no_records();
            assert(records(selection.items@) =~= Seq::<FileInfoView>::empty());
            assert(selection.kept() =~= Multiset::empty());
            assert(selection.offered@.to_multiset() =~= Multiset::empty());
        }
        selection
    }

    /// The number of files that the selection holds now.
    pub fn len(&self) -> (count: usize)
        requires
            self.wf(),
        ensures
            count == kept_count(self.limit(), self.offered().len()),
    {
        proof {
            vstd::seq_lib::to_multiset_len(records(self.items@));
            vstd::seq_lib::to_multiset_len(self.offered@);
        }
        self.items.len()
    }

    /// Offers one more file: it is kept where the selection has room, or
    /// where it stands strictly ahead of the last file kept, which then
    /// leaves.
    pub fn offer(&mut self, file: FileInfo)
        requires
            old(self).wf(),
        ensures
            final(self).wf(),
            final(self).limit() == old(self).limit(),
            final(self).offered() == old(self).offered().push(file@),
            final(self).kept() == largest_of(final(self).offered(), final(self).limit()).to_multiset(),
    {
        let ghost all = self.offered@.to_multiset();
        let ghost before = records(self.items@);
        let ghost kept = before.to_multiset();
        let ghost record = file@;
        proof {
            vstd::seq_lib::to_multiset_len(before);
            vstd::seq_lib::to_multiset_build(self.offered@, record);
            if before.len() > 0 {
                lemma_root_is_last(before);
            }
            lemma_offer_keeps(kept, all, self.limit as nat, before[0], record);
        }
        if self.items.len() < self.limit {
            self.items.push(file);
            proof {
                let grown = records(self.items@);
                assert(grown =~= before.push(record));
                vstd::seq_lib::to_multiset_build(before, record);
                assert forall|child: int|
                    1 <= child < grown.len() && child != before.len() implies #[trigger] in_order_at(
                    grown,
                    child,
                ) by {
                    assert(in_order_at(before, child));
                }
            }
            let last = self.items.len() - 1;
            sift_up(&mut self.items, last);
        } else if self.limit > 0 && file.listed_ahead(&self.items[0]) {
            self.items.set(0, file);
            proof {
                broadcast use vstd::multiset::group_multiset_axioms;

                let replaced = records(self.items@);
                assert(replaced =~= before.update(0, record));
                vstd::seq_lib::to_multiset_update(before, 0, record);
                assert(replaced.to_multiset() =~= kept.remove(before[0]).insert(record));
                assert forall|child: int|
                    1 <= child < replaced.len() && (child - 1) / 2 != 0 implies #[trigger] in_order_at(
                    replaced,
                    child,
                ) by {
                    assert(in_order_at(before, child));
                }
            }
            sift_down(&mut self.items);
        }
        self.offered = Ghost(self.offered@.push(record));
        proof {
            self.lemma_kept();
        }
    }

    /// Hands out the files kept, first-listed first.
    pub fn into_sorted(self) -> (files: Vec<FileInfo>)
        requires
            self.wf(),
        ensures
            files.deep_view() == largest_of(self.offered(), self.limit()),
    {
        let ghost wanted = largest_of(self.offered@, self.limit as nat);
        let ghost kept = self.kept();
        proof {
            self.lemma_kept();
            lemma_largest_sorted(self.offered@, self.limit as nat);
        }
        let mut heap = self.items;
        let mut drained: Vec<FileInfo> = Vec::new();
        proof {
            broadcast use vstd::multiset::group_multiset_axioms;

            lemma_no_records();
            assert(records(drained@) =~= Seq::<FileInfoView>::empty());
            assert(records(drained@).to_multiset().add(records(heap@).to_multiset()) =~= kept);
        }
        while heap.len() > 0
            invariant
                is_heap(records(heap@)),
                records(drained@).to_multiset().add(records(heap@).to_multiset()) == kept,
                forall|i: int, j: int|
                    0 <= i < j < drained.len() ==> listed_no_later(
                        #[trigger] records(drained@)[j],
                        #[trigger] records(drained@)[i],
                    ),
                forall|i: int, j: int|
                    0 <= i < drained.len() && 0 <= j < heap.len() ==> listed_no_later(
                        #[trigger] records(heap@)[j],
                        #[trigger] records(drained@)[i],
                    ),
            decreases heap.len(),
        {
            let ghost before = records(heap@);
            let ghost done = records(drained@);
            let last = heap.len() - 1;
            if last > 0 {
                exchange(&mut heap, 0, last);
            }
            let root = heap.pop().unwrap();
            proof {
                broadcast use vstd::multiset::group_multiset_axioms;

                let rest = records(heap@);
                assert(root@ == before[0]);
                assert forall|at: int| 0 <= at < before.len() implies listed_no_later(
                    #[trigger] before[at],
                    before[0],
                ) by {
                    lemma_root_stands_last(before, at);
                }
                if last > 0 {
                    let turned = before.update(0, before[last as int]).update(
                        last as int,
                        before[0],
                    );
                    lemma_exchange_keeps_records(before, 0, last as int);
                    assert(rest =~= turned.drop_last());
                    assert(turned =~= rest.push(before[0]));
                    vstd::seq_lib::to_multiset_build(rest, before[0]);
                    assert forall|child: int|
                        1 <= child < rest.len() && (child - 1) / 2 != 0 implies #[trigger] in_order_at(
                        rest,
                        child,
                    ) by {
                        assert(in_order_at(before, child));
                    }
                } else {
                    lemma_no_records();
                    assert(rest =~= Seq::<FileInfoView>::empty());
                    assert(before =~= rest.push(before[0]));
                    vstd::seq_lib::to_multiset_build(rest, before[0]);
                }
                vstd::seq_lib::to_multiset_build(done, before[0]);
                assert(done.push(before[0]).to_multiset().add(rest.to_multiset()) =~= kept);
            }
            sift_down(&mut heap);
            drained.push(root);
            proof {
                let rest = records(heap@);
                let grown = records(drained@);
                assert(grown =~= done.push(before[0]));
                assert forall|i: int, j: int|
                    0 <= i < grown.len() && 0 <= j < rest.len() implies listed_no_later(
                    #[trigger] rest[j],
                    #[trigger] grown[i],
                ) by {
                    vstd::seq_lib::to_multiset_contains(rest, rest[j]);
                    vstd::seq_lib::to_multiset_contains(before, rest[j]);
                    let at = choose|at: int| 0 <= at < before.len() && before[at] == rest[j];
                    if i < done.len() {
                        assert(listed_no_later(before[at], done[i]));
                    }
                }
            }
        }
        let ghost worst_first = records(drained@);
        let mut files: Vec<FileInfo> = Vec::new();
        while drained.len() > 0
            invariant
                drained.len() <= worst_first.len(),
                records(drained@) == worst_first.take(drained.len() as int),
                files.len() + drained.len() == worst_first.len(),
                forall|i: int|
                    0 <= i < files.len() ==> #[trigger] records(files@)[i] == worst_first[
                        worst_first.len() - 1 - i
                    ],
            decreases drained.len(),
        {
            let ghost left = records(drained@);
            let ghost made = records(files@);
            let next = drained.pop().unwrap();
            files.push(next);
            proof {
                assert(records(drained@) =~= left.drop_last());
                assert(records(files@) =~= made.push(left.last()));
            }
        }
        proof {
            broadcast use vstd::multiset::group_multiset_axioms;

            let listed = records(files@);
            assert(listed =~= worst_first.reverse());
            worst_first.lemma_reverse_to_multiset();
            lemma_no_records();
            assert(records(heap@) =~= Seq::<FileInfoView>::empty());
            assert(worst_first.to_multiset() =~= kept);
            assert(sorted_by(listed, by_listing()));
            lemma_listing_total_order();
            lemma_sorted_unique(listed, wanted, by_listing());
            assert(files.deep_view() =~= listed);
        }
        files
    }
}

} // verus!
