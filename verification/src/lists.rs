//! Lists from which marked items are kept.

use vstd::prelude::*;

verus! {

/// The items that are marked, in order.
pub open spec fn kept<T>(items: Seq<T>, marks: Seq<bool>) -> Seq<T>
    recommends
        items.len() == marks.len(),
    decreases items.len(),
{
    if items.len() == 0 {
        Seq::empty()
    } else {
        let before = kept(items.drop_last(), marks.drop_last());
        if marks.last() {
            before.push(items.last())
        } else {
            before
        }
    }
}

/// Keeps the items that are marked, in order.
pub fn keep<T>(items: Vec<T>, marks: &Vec<bool>) -> (r: Vec<T>)
    requires
        marks@.len() == items@.len(),
    ensures
        r@ == kept(items@, marks@),
{
    let ghost all = items@;
    let mut from: Vec<T> = items;
    let mut to: Vec<T> = Vec::new();
    let mut i: usize = 0;
    assert(all.skip(0) =~= all);
    while i < marks.len()
        invariant
            i <= marks.len(),
            marks@.len() == all.len(),
            from@ == all.skip(i as int),
            to@ == kept(all.take(i as int), marks@.take(i as int)),
        decreases marks.len() - i,
    {
        proof {
            assert(all.take(i + 1).drop_last() =~= all.take(i as int));
            assert(marks@.take(i + 1).drop_last() =~= marks@.take(i as int));
            assert(all.skip(i as int).remove(0) =~= all.skip(i + 1));
        }
        let item = from.remove(0);
        if marks[i] {
            to.push(item);
        }
        i = i + 1;
    }
    proof {
        assert(all.take(all.len() as int) =~= all);
        assert(marks@.take(all.len() as int) =~= marks@);
    }
    to
}

/// All items that are marked stay, in their order, and only they.
pub proof fn law_only_the_marked_stay<T>(items: Seq<T>, marks: Seq<bool>)
    requires
        items.len() == marks.len(),
    ensures
        (forall|i: int| 0 <= i < marks.len() ==> #[trigger] marks[i]) ==> kept(items, marks)
            == items,
        forall|t: T| #[trigger]
            kept(items, marks).contains(t) <==> exists|i: int|
                0 <= i < items.len() && items[i] == t && #[trigger] marks[i],
        forall|n: int|
            0 <= n <= items.len() ==> #[trigger] kept(items.take(n), marks.take(n)).is_prefix_of(
                kept(items, marks),
            ),
{
    lemma_all_marked(items, marks);
    assert forall|t: T| #[trigger]
        kept(items, marks).contains(t) <==> exists|i: int|
            0 <= i < items.len() && items[i] == t && #[trigger] marks[i] by {
        lemma_marked_stays(items, marks, t);
    }
    assert forall|n: int| 0 <= n <= items.len() implies #[trigger] kept(
        items.take(n),
        marks.take(n),
    ).is_prefix_of(kept(items, marks)) by {
        lemma_kept_prefix(items, marks, n);
    }
}

/// As many items stay as are marked, and each marked one behind those that are marked
/// before it.
pub proof fn law_marked_items_keep_their_places<T>(items: Seq<T>, marks: Seq<bool>)
    requires
        items.len() == marks.len(),
    ensures
        kept(items, marks).len() == marks.filter(|mark: bool| mark).len(),
        forall|i: int|
            0 <= i < items.len() && #[trigger] marks[i] ==> {
                let before = marks.take(i).filter(|mark: bool| mark).len() as int;
                0 <= before < kept(items, marks).len() && kept(items, marks)[before] == items[i]
            },
    decreases items.len(),
{
    reveal(Seq::filter);
    if items.len() > 0 {
        let head = items.drop_last();
        let flags = marks.drop_last();
        law_marked_items_keep_their_places(head, flags);
        assert forall|i: int| 0 <= i < items.len() && #[trigger] marks[i] implies {
            let before = marks.take(i).filter(|mark: bool| mark).len() as int;
            0 <= before < kept(items, marks).len() && kept(items, marks)[before] == items[i]
        } by {
            if i < head.len() {
                assert(flags[i]);
                assert(marks.take(i) =~= flags.take(i));
            } else {
                assert(marks.take(i) =~= flags);
            }
        }
    }
}

proof fn lemma_all_marked<T>(items: Seq<T>, marks: Seq<bool>)
    requires
        items.len() == marks.len(),
    ensures
        (forall|i: int| 0 <= i < marks.len() ==> #[trigger] marks[i]) ==> kept(items, marks)
            == items,
    decreases items.len(),
{
    if forall|i: int| 0 <= i < marks.len() ==> #[trigger] marks[i] {
        if items.len() > 0 {
            let rest = marks.drop_last();
            assert forall|i: int| 0 <= i < rest.len() implies #[trigger] rest[i] by {
                assert(marks[i]);
            }
            assert(marks[marks.len() - 1]);
            lemma_all_marked(items.drop_last(), rest);
        }
        assert(kept(items, marks) =~= items);
    }
}

proof fn lemma_marked_stays<T>(items: Seq<T>, marks: Seq<bool>, t: T)
    requires
        items.len() == marks.len(),
    ensures
        kept(items, marks).contains(t) <==> exists|i: int|
            0 <= i < items.len() && items[i] == t && #[trigger] marks[i],
    decreases items.len(),
{
    if items.len() > 0 {
        let last = items.len() - 1;
        let head = items.drop_last();
        let flags = marks.drop_last();
        let before = kept(head, flags);
        let now = kept(items, marks);
        lemma_marked_stays(head, flags, t);
        if now.contains(t) {
            if before.contains(t) {
                let i = choose|i: int| 0 <= i < head.len() && head[i] == t && #[trigger] flags[i];
                assert(items[i] == t && marks[i]);
            } else {
                let k = choose|k: int| 0 <= k < now.len() && now[k] == t;
                if k < before.len() {
                    assert(before[k] == t);
                }
                assert(items[last] == t && marks[last]);
            }
        }
        if exists|i: int| 0 <= i < items.len() && items[i] == t && #[trigger] marks[i] {
            let i = choose|i: int| 0 <= i < items.len() && items[i] == t && #[trigger] marks[i];
            if i < last {
                assert(head[i] == t && flags[i]);
                let k = choose|k: int| 0 <= k < before.len() && before[k] == t;
                assert(now[k] == t);
            } else {
                assert(now[now.len() - 1] == t);
            }
        }
    }
}

proof fn lemma_kept_prefix<T>(items: Seq<T>, marks: Seq<bool>, n: int)
    requires
        items.len() == marks.len(),
        0 <= n <= items.len(),
    ensures
        kept(items.take(n), marks.take(n)).is_prefix_of(kept(items, marks)),
    decreases items.len() - n,
{
    let now = kept(items, marks);
    if n == items.len() {
        assert(items.take(n) =~= items);
        assert(marks.take(n) =~= marks);
        assert(now =~= now.subrange(0, now.len() as int));
    } else {
        lemma_kept_prefix(items, marks, n + 1);
        assert(items.take(n + 1).drop_last() =~= items.take(n));
        assert(marks.take(n + 1).drop_last() =~= marks.take(n));
        let part = kept(items.take(n), marks.take(n));
        let more = kept(items.take(n + 1), marks.take(n + 1));
        assert(part =~= more.subrange(0, part.len() as int));
        assert(part =~= now.subrange(0, part.len() as int));
    }
}

/// A list of different items stays one when items are dropped from it.
pub proof fn lemma_kept_differ<T>(items: Seq<T>, marks: Seq<bool>)
    requires
        items.len() == marks.len(),
        items.no_duplicates(),
    ensures
        kept(items, marks).no_duplicates(),
        forall|t: T| #[trigger] kept(items, marks).contains(t) ==> items.contains(t),
    decreases items.len(),
{
    law_only_the_marked_stay(items, marks);
    if items.len() > 0 {
        let head = items.drop_last();
        let before = kept(head, marks.drop_last());
        lemma_kept_differ(head, marks.drop_last());
        if before.contains(items.last()) {
            let k = choose|k: int| 0 <= k < head.len() && head[k] == items.last();
            assert(items[k] == items[items.len() - 1]);
        }
        if marks.last() {
            lemma_push_new(before, items.last());
        }
    }
}

/// A list of different items stays one when a new item is added to it.
pub proof fn lemma_push_new<T>(items: Seq<T>, item: T)
    requires
        items.no_duplicates(),
        !items.contains(item),
    ensures
        items.push(item).no_duplicates(),
        forall|t: T| #[trigger] items.push(item).contains(t) ==> items.contains(t) || t == item,
{
    let now = items.push(item);
    assert forall|t: T| #[trigger] now.contains(t) implies items.contains(t) || t == item by {
        let k = choose|k: int| 0 <= k < now.len() && now[k] == t;
        if k < items.len() {
            assert(items[k] == t);
        }
    }
    assert forall|i: int, j: int| 0 <= i < now.len() && 0 <= j < now.len() && i
        != j implies now[i] != now[j] by {
        if i < items.len() {
            assert(items.contains(items[i]));
        }
        if j < items.len() {
            assert(items.contains(items[j]));
        }
    }
}

} // verus!
