//! The diff engine: given two snapshots of a directory (previous and
//! current), compute which entries were added and which were removed,
//! with set semantics over entry values.

use vstd::prelude::*;

use crate::items::Item;
use crate::items::ItemModel;

verus! {

/// The entry values of a snapshot, in listing order.
pub open spec fn models(s: Seq<Item>) -> Seq<ItemModel> {
    s.map_values(|i: Item| i@)
}

/// The mathematical contents of a snapshot: the set of its entry values.
pub open spec fn model_set(s: Seq<Item>) -> Set<ItemModel> {
    models(s).to_set()
}

/// The entries a diff reports as added: present now, absent before.
pub open spec fn diff_added(old: Set<ItemModel>, new: Set<ItemModel>) -> Set<ItemModel> {
    new.difference(old)
}

/// The entries a diff reports as removed: present before, absent now.
pub open spec fn diff_removed(old: Set<ItemModel>, new: Set<ItemModel>) -> Set<ItemModel> {
    old.difference(new)
}

/// The changes between two snapshots. Each vector lists each changed
/// entry exactly once; no order is significant.
#[derive(Debug)]
pub struct Diff {
    pub added: Vec<Item>,
    pub removed: Vec<Item>,
}

/// Whether the snapshot `v` contains the entry value `x@`.
fn contains_item(v: &Vec<Item>, x: &Item) -> (b: bool)
    ensures
        b == model_set(v@).contains(x@),
{
    let mut i: usize = 0;
    while i < v.len()
        invariant
            i <= v@.len(),
            forall|j: int| 0 <= j < i ==> models(v@)[j] != x@,
        decreases v@.len() - i,
    {
        if v[i] == *x {
            assert(models(v@)[i as int] == x@);
            assert(models(v@).contains(x@));
            return true;
        }
        i += 1;
    }
    assert(!models(v@).contains(x@));
    false
}

/// Appending one item to a snapshot inserts its value into the
/// snapshot's contents.
proof fn lemma_model_set_push(s: Seq<Item>, x: Item)
    ensures
        model_set(s.push(x)) == model_set(s).insert(x@),
        models(s.push(x)) == models(s).push(x@),
{
    assert(models(s.push(x)) =~= models(s).push(x@));
    assert forall|e: ItemModel|
        model_set(s.push(x)).contains(e) <==> model_set(s).insert(x@).contains(e) by {
        if models(s).push(x@).contains(e) {
            let j = choose|j: int| 0 <= j < models(s).push(x@).len() && models(s).push(x@)[j] == e;
            if j < models(s).len() {
                assert(models(s)[j] == e);
            }
        }
        if models(s).contains(e) {
            let j = choose|j: int| 0 <= j < models(s).len() && models(s)[j] == e;
            assert(models(s).push(x@)[j] == e);
        }
        if e == x@ {
            assert(models(s).push(x@).last() == x@);
        }
    }
    assert(model_set(s.push(x)) =~= model_set(s).insert(x@));
}

/// A snapshot prefix grows by one entry: its contents gain that
/// entry's value.
proof fn lemma_model_set_take_snoc(s: Seq<Item>, i: int)
    requires
        0 <= i < s.len(),
    ensures
        model_set(s.take(i + 1)) == model_set(s.take(i)).insert(s[i]@),
{
    assert(s.take(i + 1) =~= s.take(i).push(s[i]));
    lemma_model_set_push(s.take(i), s[i]);
}

/// The entries of `from` that are not in `except`, each exactly once.
fn difference_of(from: &Vec<Item>, except: &Vec<Item>) -> (out: Vec<Item>)
    ensures
        model_set(out@) == model_set(from@).difference(model_set(except@)),
        models(out@).no_duplicates(),
{
    let mut out: Vec<Item> = Vec::new();
    let mut i: usize = 0;
    assert(model_set(out@) =~= model_set(from@.take(0)).difference(model_set(except@)));
    while i < from.len()
        invariant
            i <= from@.len(),
            model_set(out@) == model_set(from@.take(i as int)).difference(model_set(except@)),
            models(out@).no_duplicates(),
        decreases from@.len() - i,
    {
        let x = &from[i];
        let in_except = contains_item(except, x);
        let already = contains_item(&out, x);
        if !in_except && !already {
            let ghost old_out = out@;
            out.push(x.clone());
            proof {
                lemma_model_set_push(old_out, from[i as int]);
                assert(models(out@).no_duplicates()) by {
                    assert(models(out@) == models(old_out).push(from@[i as int]@));
                    assert(forall|j: int|
                        0 <= j < models(old_out).len() ==> models(old_out)[j] == models(
                            out@,
                        )[j]);
                }
            }
        }
        proof {
            lemma_model_set_take_snoc(from@, i as int);
            assert(model_set(out@) =~= model_set(from@.take(i + 1)).difference(
                model_set(except@),
            ));
        }
        i += 1;
    }
    proof {
        assert(from@.take(from@.len() as int) =~= from@);
    }
    out
}

/// Computes the diff between two snapshots: `added` holds the entry
/// values of `new` that `old` lacks, `removed` those of `old` that
/// `new` lacks, each exactly once.
pub fn owned_diff(old: &Vec<Item>, new: &Vec<Item>) -> (d: Diff)
    ensures
        model_set(d.added@) == diff_added(model_set(old@), model_set(new@)),
        model_set(d.removed@) == diff_removed(model_set(old@), model_set(new@)),
        models(d.added@).no_duplicates(),
        models(d.removed@).no_duplicates(),
{
    let added = difference_of(new, old);
    let removed = difference_of(old, new);
    Diff { added, removed }
}

/// Two identical snapshots diff to nothing: no entry is added and none
/// is removed.
pub proof fn lemma_diff_identical(s: Set<ItemModel>)
    ensures
        diff_added(s, s) == Set::<ItemModel>::empty(),
        diff_removed(s, s) == Set::<ItemModel>::empty(),
{
    assert(diff_added(s, s) =~= Set::<ItemModel>::empty());
    assert(diff_removed(s, s) =~= Set::<ItemModel>::empty());
}

/// No entry is both added and removed by one diff.
pub proof fn lemma_diff_disjoint(a: Set<ItemModel>, b: Set<ItemModel>)
    ensures
        diff_added(a, b).intersect(diff_removed(a, b)) == Set::<ItemModel>::empty(),
{
    assert(diff_added(a, b).intersect(diff_removed(a, b)) =~= Set::<ItemModel>::empty());
}

/// Swapping the two snapshots swaps the roles of added and removed.
pub proof fn lemma_diff_symmetry(a: Set<ItemModel>, b: Set<ItemModel>)
    ensures
        diff_added(b, a) == diff_removed(a, b),
        diff_removed(b, a) == diff_added(a, b),
{
    assert(diff_added(b, a) =~= diff_removed(a, b));
    assert(diff_removed(b, a) =~= diff_added(a, b));
}

/// The bounds a diff respects: removed entries are drawn from the old
/// snapshot, and the old snapshot together with the added entries
/// covers the new one.
pub proof fn lemma_diff_bounds(old: Set<ItemModel>, new: Set<ItemModel>)
    ensures
        diff_removed(old, new).subset_of(old),
        new.subset_of(old.union(diff_added(old, new))),
{
}

/// Against an empty baseline everything present is added and nothing
/// is removed; against an empty current snapshot everything previously
/// present is removed and nothing is added.
pub proof fn lemma_diff_empty(a: Set<ItemModel>)
    ensures
        diff_added(Set::empty(), a) == a,
        diff_removed(Set::empty(), a) == Set::<ItemModel>::empty(),
        diff_added(a, Set::empty()) == Set::<ItemModel>::empty(),
        diff_removed(a, Set::empty()) == a,
{
    assert(diff_added(Set::empty(), a) =~= a);
    assert(diff_removed(Set::empty(), a) =~= Set::<ItemModel>::empty());
    assert(diff_added(a, Set::empty()) =~= Set::<ItemModel>::empty());
    assert(diff_removed(a, Set::empty()) =~= a);
}

} // verus!
