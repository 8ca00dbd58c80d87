//! The order of strings, and lists of strings in that order.

use vstd::prelude::*;
use vstd::relations::{sorted_by, total_ordering};
use vstd::seq_lib::lemma_sorted_unique;
use crate::text::{chars_of, contains_text, push_text};

verus! {

/// Whether `a` comes before `b` in the order of dictionaries over code points.
pub open spec fn before(a: Seq<char>, b: Seq<char>) -> bool
    decreases a.len(),
{
    if b.len() == 0 {
        false
    } else if a.len() == 0 {
        true
    } else if a[0] != b[0] {
        a[0] < b[0]
    } else {
        before(a.skip(1), b.skip(1))
    }
}

/// Whether `a` is `b` or comes before it.
pub open spec fn not_after(a: Seq<char>, b: Seq<char>) -> bool {
    a == b || before(a, b)
}

/// Of two different texts exactly one comes before the other.
pub proof fn before_is_total(a: Seq<char>, b: Seq<char>)
    ensures
        !before(a, a),
        a != b ==> before(a, b) != before(b, a),
    decreases a.len(),
{
    if a.len() > 0 {
        before_is_total(a.skip(1), b.skip(1));
        if b.len() > 0 && a[0] == b[0] && a.skip(1) == b.skip(1) {
            assert(a =~= seq![a[0]] + a.skip(1));
            assert(b =~= seq![b[0]] + b.skip(1));
        }
    } else {
        if b.len() == 0 {
            assert(a =~= b);
        }
    }
}

/// What comes before a text comes before all that this text comes before.
pub proof fn before_is_transitive(a: Seq<char>, b: Seq<char>, c: Seq<char>)
    requires
        before(a, b),
        before(b, c),
    ensures
        before(a, c),
    decreases a.len(),
{
    if a.len() > 0 && b.len() > 0 && c.len() > 0 && a[0] == b[0] && b[0] == c[0] {
        before_is_transitive(a.skip(1), b.skip(1), c.skip(1));
    }
}

/// The order of texts, as a relation.
pub open spec fn text_order() -> spec_fn(Seq<char>, Seq<char>) -> bool {
    |a: Seq<char>, b: Seq<char>| not_after(a, b)
}

/// The order of texts is total.
pub proof fn text_order_is_total()
    ensures
        total_ordering(text_order()),
{
    let leq = text_order();
    assert forall|a: Seq<char>, b: Seq<char>| #[trigger] leq(a, b) && #[trigger] leq(b, a) implies a
        == b by {
        before_is_total(a, b);
    }
    assert forall|a: Seq<char>, b: Seq<char>, c: Seq<char>| #[trigger]
        leq(a, b) && #[trigger] leq(b, c) implies leq(a, c) by {
        if a != b && b != c {
            before_is_transitive(a, b, c);
        }
    }
    assert forall|a: Seq<char>, b: Seq<char>| #[trigger] leq(a, b) || #[trigger] leq(b, a) by {
        before_is_total(a, b);
    }
}

/// The list in order.
pub open spec fn sorted(list: Seq<Seq<char>>) -> Seq<Seq<char>> {
    list.sort_by(text_order())
}

/// Whether `a` comes before `b`.
pub fn comes_before(a: &str, b: &str) -> (r: bool)
    ensures
        r == before(a@, b@),
{
    let left = chars_of(a);
    let right = chars_of(b);
    let mut i: usize = 0;
    assert(a@.skip(0) =~= a@);
    assert(b@.skip(0) =~= b@);
    while i < left.len() && i < right.len()
        invariant
            left@ == a@,
            right@ == b@,
            i <= left@.len(),
            i <= right@.len(),
            before(a@, b@) == before(a@.skip(i as int), b@.skip(i as int)),
        decreases left.len() - i,
    {
        if left[i] != right[i] {
            return left[i] < right[i];
        }
        assert(a@.skip(i as int).skip(1) =~= a@.skip(i + 1));
        assert(b@.skip(i as int).skip(1) =~= b@.skip(i + 1));
        i = i + 1;
    }
    i < right.len()
}

/// Puts `text` where it belongs in a list that is in order.
fn insert_in_order(list: &mut Vec<String>, text: String)
    requires
        sorted_by(old(list).deep_view(), text_order()),
    ensures
        sorted_by(final(list).deep_view(), text_order()),
        final(list).deep_view().to_multiset() == old(list).deep_view().to_multiset().insert(text@),
{
    let ghost views = list.deep_view();
    let mut i: usize = list.len();
    while i > 0 && comes_before(text.as_str(), list[i - 1].as_str())
        invariant
            list == old(list),
            views == list.deep_view(),
            i <= list@.len(),
            forall|j: int| i <= j < views.len() ==> before(text@, #[trigger] views[j]),
        decreases i,
    {
        assert(views[i - 1] == list@[i - 1]@);
        i = i - 1;
    }
    list.insert(i, text);
    proof {
        let leq = text_order();
        assert(list.deep_view() =~= views.insert(i as int, text@));
        views.insert_ensures(i as int, text@);
        vstd::seq_lib::to_multiset_insert(views, i as int, text@);
        text_order_is_total();
        let after = list.deep_view();
        assert forall|a: int, b: int| 0 <= a < b < after.len() implies #[trigger] leq(
            after[a],
            after[b],
        ) by {
            if a < i && b == i {
                assert(after[a] == views[a]);
                if i > 0 && !before(text@, views[i - 1]) {
                    before_is_total(text@, views[i - 1]);
                    assert(leq(views[i - 1], text@));
                    if a < i - 1 {
                        assert(leq(views[a], views[i - 1]));
                        if views[a] != views[i - 1] && views[i - 1] != text@ {
                            before_is_transitive(views[a], views[i - 1], text@);
                        }
                    }
                }
            } else if a == i {
                assert(after[b] == views[b - 1]);
            } else if b < i {
                assert(leq(views[a], views[b]));
            } else if a > i {
                assert(leq(views[a - 1], views[b - 1]));
            } else {
                assert(leq(views[a], views[b - 1]));
            }
        }
    }
}

/// The strings of `list` in order.
pub fn sort_texts(list: &Vec<String>) -> (r: Vec<String>)
    ensures
        r.deep_view() == sorted(list.deep_view()),
{
    let mut r: Vec<String> = Vec::new();
    let mut i: usize = 0;
    let ghost all = list.deep_view();
    proof {
        assert(r.deep_view() =~= Seq::empty());
        assert(all.take(0) =~= Seq::empty());
    }
    while i < list.len()
        invariant
            i <= list@.len(),
            all == list.deep_view(),
            sorted_by(r.deep_view(), text_order()),
            r.deep_view().to_multiset() == all.take(i as int).to_multiset(),
        decreases list.len() - i,
    {
        insert_in_order(&mut r, list[i].clone());
        proof {
            assert(all.take(i + 1) =~= all.take(i as int).push(all[i as int]));
            vstd::seq_lib::to_multiset_build(all.take(i as int), all[i as int]);
        }
        i = i + 1;
    }
    proof {
        assert(all.take(i as int) =~= all);
        text_order_is_total();
        all.lemma_sort_by_ensures(text_order());
        lemma_sorted_unique(r.deep_view(), sorted(all), text_order());
    }
    r
}

/// The list without each text that already stands before it in the list.
pub open spec fn first_occurrences(list: Seq<Seq<char>>) -> Seq<Seq<char>>
    decreases list.len(),
{
    if list.len() == 0 {
        Seq::empty()
    } else {
        let head = first_occurrences(list.drop_last());
        if list.drop_last().contains(list.last()) {
            head
        } else {
            head.push(list.last())
        }
    }
}

/// `first_occurrences` keeps each text of the list, once.
pub proof fn first_occurrences_are_unique(list: Seq<Seq<char>>)
    ensures
        first_occurrences(list).no_duplicates(),
        forall|t: Seq<char>| #[trigger] first_occurrences(list).contains(t) <==> list.contains(t),
    decreases list.len(),
{
    if list.len() > 0 {
        let head = list.drop_last();
        first_occurrences_are_unique(head);
        let kept = first_occurrences(head);
        assert forall|t: Seq<char>| #[trigger]
            first_occurrences(list).contains(t) <==> list.contains(t) by {
            assert(list =~= head.push(list.last()));
            if list.contains(t) {
                let k = list.index_of(t);
                if k < head.len() {
                    assert(head[k] == t);
                    assert(kept.contains(t));
                    let m = kept.index_of(t);
                    assert(first_occurrences(list)[m] == t);
                } else {
                    if head.contains(t) {
                        assert(kept.contains(t));
                    } else {
                        assert(first_occurrences(list).last() == t);
                    }
                }
            }
            if first_occurrences(list).contains(t) {
                let k = first_occurrences(list).index_of(t);
                if k < kept.len() {
                    assert(kept[k] == t);
                    assert(kept.contains(t));
                    let m = head.index_of(t);
                    assert(list[m] == t);
                } else {
                    assert(list[list.len() - 1] == t);
                }
            }
        }
        if !head.contains(list.last()) {
            assert(!kept.contains(list.last()));
        }
    }
}

/// Lists that hold the same texts are the same list once each is kept once and put in
/// order.
pub proof fn same_sets_sort_alike(a: Seq<Seq<char>>, b: Seq<Seq<char>>)
    requires
        forall|t: Seq<char>| #[trigger] a.contains(t) <==> b.contains(t),
    ensures
        sorted(first_occurrences(a)) == sorted(first_occurrences(b)),
{
    let x = first_occurrences(a);
    let y = first_occurrences(b);
    first_occurrences_are_unique(a);
    first_occurrences_are_unique(b);
    assert(x.to_multiset() =~= y.to_multiset()) by {
        x.lemma_multiset_has_no_duplicates();
        y.lemma_multiset_has_no_duplicates();
        broadcast use vstd::seq_lib::group_to_multiset_ensures;

        assert forall|t: Seq<char>| x.to_multiset().count(t) == y.to_multiset().count(t) by {
            assert(x.contains(t) <==> y.contains(t));
            if x.contains(t) {
                assert(x.to_multiset().contains(t));
                assert(y.to_multiset().contains(t));
            } else {
                assert(!x.to_multiset().contains(t));
                assert(!y.to_multiset().contains(t));
            }
        }
    }
    text_order_is_total();
    x.lemma_sort_by_ensures(text_order());
    y.lemma_sort_by_ensures(text_order());
    lemma_sorted_unique(sorted(x), sorted(y), text_order());
}

/// The strings of `list` in their order, each once.
pub fn dedupe(list: &Vec<String>) -> (r: Vec<String>)
    ensures
        r.deep_view() == first_occurrences(list.deep_view()),
{
    let mut r: Vec<String> = Vec::new();
    let mut i: usize = 0;
    let ghost all = list.deep_view();
    assert(r.deep_view() =~= Seq::empty());
    while i < list.len()
        invariant
            i <= list@.len(),
            all == list.deep_view(),
            r.deep_view() == first_occurrences(all.take(i as int)),
        decreases list.len() - i,
    {
        proof {
            assert(all.take(i + 1).drop_last() =~= all.take(i as int));
            assert(all.take(i + 1).last() == all[i as int]);
            first_occurrences_are_unique(all.take(i as int));
            assert(r.deep_view().contains(all[i as int]) == all.take(i as int).contains(
                all[i as int],
            ));
        }
        if !contains_text(&r, list[i].as_str()) {
            push_text(&mut r, list[i].clone());
        }
        i = i + 1;
    }
    assert(all.take(i as int) =~= all);
    r
}

} // verus!
