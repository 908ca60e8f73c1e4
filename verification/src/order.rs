//! The order of texts, and lists that are kept in it.
use vstd::prelude::*;

use crate::text::{chars_of, same_text, texts};

verus! {

/// Whether a text comes before another: where they differ first, its character is the smaller
/// one, or it ends there.
pub open spec fn text_before(a: Seq<char>, b: Seq<char>) -> bool
    decreases a.len(),
{
    if b.len() == 0 {
        false
    } else if a.len() == 0 {
        true
    } else if a[0] == b[0] {
        text_before(a.skip(1), b.skip(1))
    } else {
        a[0] < b[0]
    }
}

/// No text comes before itself.
pub proof fn law_text_order_irreflexive(a: Seq<char>)
    ensures
        !text_before(a, a),
    decreases a.len(),
{
    if a.len() > 0 {
        law_text_order_irreflexive(a.skip(1));
    }
}

/// Of two texts that differ, one comes before the other.
pub proof fn law_text_order_total(a: Seq<char>, b: Seq<char>)
    ensures
        a == b || text_before(a, b) || text_before(b, a),
    decreases a.len(),
{
    if a.len() == 0 || b.len() == 0 {
        assert(a.len() == 0 && b.len() == 0 ==> a =~= b);
    } else if a[0] == b[0] {
        law_text_order_total(a.skip(1), b.skip(1));
        if a.skip(1) == b.skip(1) {
            assert(a =~= seq![a[0]] + a.skip(1));
            assert(b =~= seq![b[0]] + b.skip(1));
        }
    }
}

/// A text that comes before a second comes before whatever the second comes before.
pub proof fn law_text_order_transitive(a: Seq<char>, b: Seq<char>, c: Seq<char>)
    requires
        text_before(a, b),
        text_before(b, c),
    ensures
        text_before(a, c),
    decreases a.len(),
{
    if a.len() > 0 && a[0] == b[0] && b[0] == c[0] {
        law_text_order_transitive(a.skip(1), b.skip(1), c.skip(1));
    }
}

/// Whether a text comes before another.
pub fn text_less(a: &str, b: &str) -> (r: bool)
    ensures
        r == text_before(a@, b@),
{
    let first = chars_of(a);
    let second = chars_of(b);
    let mut i: usize = 0;
    assert(a@.skip(0) =~= a@);
    assert(b@.skip(0) =~= b@);
    while i < first.len() && i < second.len()
        invariant
            first@ == a@,
            second@ == b@,
            i <= a@.len(),
            i <= b@.len(),
            text_before(a@, b@) == text_before(a@.skip(i as int), b@.skip(i as int)),
        decreases a@.len() - i,
    {
        assert(a@.skip(i as int)[0] == first@[i as int]);
        assert(b@.skip(i as int)[0] == second@[i as int]);
        if first[i] != second[i] {
            return first[i] < second[i];
        }
        assert(a@.skip(i as int).skip(1) =~= a@.skip(i + 1));
        assert(b@.skip(i as int).skip(1) =~= b@.skip(i + 1));
        i += 1;
    }
    i < second.len()
}

/// A list in order with one more text, at its place; a text that is there already is not added.
pub open spec fn with_text(list: Seq<Seq<char>>, text: Seq<char>) -> Seq<Seq<char>>
    decreases list.len(),
{
    if list.len() == 0 || text_before(list.last(), text) {
        list.push(text)
    } else if list.last() == text {
        list
    } else {
        with_text(list.drop_last(), text).push(list.last())
    }
}

/// Some texts in order, each of them once.
pub open spec fn in_order(all: Seq<Seq<char>>) -> Seq<Seq<char>>
    decreases all.len(),
{
    if all.len() == 0 {
        Seq::empty()
    } else {
        with_text(in_order(all.drop_last()), all.last())
    }
}

/// Whether a list is in order and holds no text twice.
pub open spec fn ascending(list: Seq<Seq<char>>) -> bool {
    forall|i: int, j: int| 0 <= i < j < list.len() ==> text_before(#[trigger] list[i], #[trigger] list[j])
}

proof fn lemma_with_text(list: Seq<Seq<char>>, text: Seq<char>)
    requires
        ascending(list),
    ensures
        ascending(with_text(list, text)),
        forall|other: Seq<char>| #[trigger]
            with_text(list, text).contains(other) <==> (list.contains(other) || other == text),
    decreases list.len(),
{
    let result = with_text(list, text);
    if list.len() == 0 || text_before(list.last(), text) {
        assert forall|i: int, j: int| 0 <= i < j < result.len() implies text_before(
            #[trigger] result[i],
            #[trigger] result[j],
        ) by {
            if j == list.len() && i < list.len() - 1 {
                law_text_order_transitive(list[i], list.last(), text);
            }
        }
        assert forall|other: Seq<char>| #[trigger]
            result.contains(other) <==> (list.contains(other) || other == text) by {
            if list.contains(other) {
                let k = choose|k: int| 0 <= k < list.len() && list[k] == other;
                assert(result[k] == other);
            }
            if other == text {
                assert(result[list.len() as int] == other);
            }
        }
    } else if list.last() == text {
        assert(list[list.len() - 1] == text);
    } else {
        let front = list.drop_last();
        assert forall|i: int, j: int| 0 <= i < j < front.len() implies text_before(
            #[trigger] front[i],
            #[trigger] front[j],
        ) by {
            assert(front[i] == list[i] && front[j] == list[j]);
        }
        lemma_with_text(front, text);
        let inner = with_text(front, text);
        law_text_order_total(list.last(), text);
        assert forall|i: int, j: int| 0 <= i < j < result.len() implies text_before(
            #[trigger] result[i],
            #[trigger] result[j],
        ) by {
            if j == inner.len() {
                assert(inner.contains(inner[i]));
                if front.contains(inner[i]) {
                    let k = choose|k: int| 0 <= k < front.len() && front[k] == inner[i];
                    assert(list[k] == inner[i]);
                }
            }
        }
        assert forall|other: Seq<char>| #[trigger]
            result.contains(other) <==> (list.contains(other) || other == text) by {
            if result.contains(other) {
                let k = choose|k: int| 0 <= k < result.len() && result[k] == other;
                if k < inner.len() {
                    assert(inner.contains(other));
                    if front.contains(other) {
                        let m = choose|m: int| 0 <= m < front.len() && front[m] == other;
                        assert(list[m] == other);
                    }
                } else {
                    assert(list[list.len() - 1] == other);
                }
            }
            if list.contains(other) {
                let k = choose|k: int| 0 <= k < list.len() && list[k] == other;
                if k < front.len() {
                    assert(front[k] == other);
                    assert(inner.contains(other));
                    let m = choose|m: int| 0 <= m < inner.len() && inner[m] == other;
                    assert(result[m] == other);
                } else {
                    assert(result[inner.len() as int] == other);
                }
            }
            if other == text {
                assert(inner.contains(other));
                let m = choose|m: int| 0 <= m < inner.len() && inner[m] == other;
                assert(result[m] == other);
            }
        }
    }
}

/// Texts in order are strictly ascending, and none is lost or made up.
pub proof fn law_in_order(all: Seq<Seq<char>>)
    ensures
        ascending(in_order(all)),
        forall|text: Seq<char>| #[trigger] in_order(all).contains(text) <==> all.contains(text),
    decreases all.len(),
{
    if all.len() > 0 {
        law_in_order(all.drop_last());
        lemma_with_text(in_order(all.drop_last()), all.last());
        assert forall|text: Seq<char>| #[trigger]
            in_order(all).contains(text) <==> all.contains(text) by {
            if all.contains(text) {
                let k = choose|k: int| 0 <= k < all.len() && all[k] == text;
                if k < all.len() - 1 {
                    assert(all.drop_last()[k] == text);
                }
            }
            if all.drop_last().contains(text) {
                let k = choose|k: int| 0 <= k < all.drop_last().len() && all.drop_last()[k] == text;
                assert(all[k] == text);
            }
            assert(all[all.len() - 1] == all.last());
        }
    }
}

proof fn lemma_with_text_at(list: Seq<Seq<char>>, text: Seq<char>, k: int)
    requires
        0 <= k <= list.len(),
        forall|j: int|
            k <= j < list.len() ==> !text_before(#[trigger] list[j], text) && list[j] != text,
    ensures
        with_text(list, text) == with_text(list.take(k), text) + list.skip(k),
    decreases list.len() - k,
{
    if k == list.len() {
        assert(list.take(k) =~= list);
        assert(with_text(list, text) + list.skip(k) =~= with_text(list, text));
    } else {
        let front = list.drop_last();
        assert(front.take(k) =~= list.take(k));
        assert(list.last() == list[list.len() - 1]);
        assert forall|j: int| k <= j < front.len() implies !text_before(#[trigger] front[j], text)
            && front[j] != text by {
            assert(front[j] == list[j]);
        }
        lemma_with_text_at(front, text, k);
        assert((with_text(list.take(k), text) + front.skip(k)).push(list.last()) =~= with_text(
            list.take(k),
            text,
        ) + list.skip(k));
    }
}

/// Puts a text at its place in a list in order, unless it is there already.
pub fn insert_text(list: &mut Vec<String>, text: String)
    ensures
        texts(final(list)@) == with_text(texts(old(list)@), text@),
{
    let ghost all = texts(list@);
    let mut k: usize = list.len();
    while k > 0
        invariant
            k <= list@.len(),
            all == texts(list@),
            list@ == old(list)@,
            forall|j: int|
                k <= j < all.len() ==> !text_before(#[trigger] all[j], text@) && all[j] != text@,
        decreases k,
    {
        let at: usize = k - 1;
        assert(all[at as int] == list@[at as int]@);
        if text_less(list[at].as_str(), text.as_str()) {
            proof {
                lemma_with_text_at(all, text@, k as int);
                assert(all.take(k as int).last() == all[at as int]);
            }
            list.insert(k, text);
            assert(texts(list@) =~= with_text(all.take(k as int), text@) + all.skip(k as int));
            return;
        }
        if same_text(list[at].as_str(), text.as_str()) {
            proof {
                lemma_with_text_at(all, text@, k as int);
                assert(all.take(k as int).last() == all[at as int]);
                law_text_order_irreflexive(text@);
                assert(all =~= all.take(k as int) + all.skip(k as int));
            }
            return;
        }
        k -= 1;
    }
    proof {
        lemma_with_text_at(all, text@, 0);
        assert(all.take(0) =~= Seq::empty());
    }
    list.insert(0, text);
    assert(texts(list@) =~= with_text(all.take(0), text@) + all.skip(0));
}

/// Some texts in order, each of them once.
pub fn ordered(list: &Vec<String>) -> (r: Vec<String>)
    ensures
        texts(r@) == in_order(texts(list@)),
{
    let mut r: Vec<String> = Vec::new();
    let ghost all = texts(list@);
    let mut i: usize = 0;
    assert(texts(r@) =~= Seq::empty());
    assert(all.take(0) =~= Seq::empty());
    while i < list.len()
        invariant
            i <= list@.len(),
            all == texts(list@),
            texts(r@) == in_order(all.take(i as int)),
        decreases list@.len() - i,
    {
        assert(all.take(i + 1).drop_last() =~= all.take(i as int));
        assert(all.take(i + 1).last() == list@[i as int]@);
        insert_text(&mut r, list[i].clone());
        i += 1;
    }
    assert(all.take(i as int) =~= all);
    r
}

/// A list in order with one more text, behind those that are the same.
pub open spec fn with_each(list: Seq<Seq<char>>, text: Seq<char>) -> Seq<Seq<char>>
    decreases list.len(),
{
    if list.len() == 0 || !text_before(text, list.last()) {
        list.push(text)
    } else {
        with_each(list.drop_last(), text).push(list.last())
    }
}

/// Some texts in order, as often as they come.
pub open spec fn sorted(all: Seq<Seq<char>>) -> Seq<Seq<char>>
    decreases all.len(),
{
    if all.len() == 0 {
        Seq::empty()
    } else {
        with_each(sorted(all.drop_last()), all.last())
    }
}

proof fn lemma_with_each(list: Seq<Seq<char>>, text: Seq<char>)
    ensures
        with_each(list, text).to_multiset() == list.to_multiset().insert(text),
    decreases list.len(),
{
    broadcast use vstd::seq_lib::group_to_multiset_ensures;

    if list.len() > 0 && text_before(text, list.last()) {
        let front = list.drop_last();
        lemma_with_each(front, text);
        assert(list =~= front.push(list.last()));
        assert(with_each(list, text).to_multiset() =~= list.to_multiset().insert(text));
    }
}

/// Sorting loses no text and makes none up.
pub proof fn law_sorted_keeps_texts(all: Seq<Seq<char>>)
    ensures
        sorted(all).to_multiset() == all.to_multiset(),
    decreases all.len(),
{
    broadcast use vstd::seq_lib::group_to_multiset_ensures;

    if all.len() > 0 {
        law_sorted_keeps_texts(all.drop_last());
        lemma_with_each(sorted(all.drop_last()), all.last());
        assert(all =~= all.drop_last().push(all.last()));
    } else {
        assert(all =~= Seq::empty());
    }
}

proof fn lemma_with_each_at(list: Seq<Seq<char>>, text: Seq<char>, k: int)
    requires
        0 <= k <= list.len(),
        forall|j: int| k <= j < list.len() ==> text_before(text, #[trigger] list[j]),
    ensures
        with_each(list, text) == with_each(list.take(k), text) + list.skip(k),
    decreases list.len() - k,
{
    if k == list.len() {
        assert(list.take(k) =~= list);
        assert(with_each(list, text) + list.skip(k) =~= with_each(list, text));
    } else {
        let front = list.drop_last();
        assert(front.take(k) =~= list.take(k));
        assert(list.last() == list[list.len() - 1]);
        assert forall|j: int| k <= j < front.len() implies text_before(text, #[trigger] front[j]) by {
            assert(front[j] == list[j]);
        }
        lemma_with_each_at(front, text, k);
        assert((with_each(list.take(k), text) + front.skip(k)).push(list.last()) =~= with_each(
            list.take(k),
            text,
        ) + list.skip(k));
    }
}

fn insert_each(list: &mut Vec<String>, text: String)
    ensures
        texts(final(list)@) == with_each(texts(old(list)@), text@),
{
    let ghost all = texts(list@);
    let mut k: usize = list.len();
    while k > 0 && text_less(text.as_str(), list[k - 1].as_str())
        invariant
            k <= list@.len(),
            all == texts(list@),
            list@ == old(list)@,
            forall|j: int| k <= j < all.len() ==> text_before(text@, #[trigger] all[j]),
        decreases k,
    {
        k -= 1;
    }
    proof {
        lemma_with_each_at(all, text@, k as int);
        if k > 0 {
            assert(all.take(k as int).last() == list@[k - 1]@);
        }
    }
    list.insert(k, text);
    assert(texts(list@) =~= with_each(all.take(k as int), text@) + all.skip(k as int));
}

/// Some texts in order, as often as they come.
pub fn sorted_texts(list: &Vec<String>) -> (r: Vec<String>)
    ensures
        texts(r@) == sorted(texts(list@)),
{
    let mut r: Vec<String> = Vec::new();
    let ghost all = texts(list@);
    let mut i: usize = 0;
    assert(texts(r@) =~= Seq::empty());
    assert(all.take(0) =~= Seq::empty());
    while i < list.len()
        invariant
            i <= list@.len(),
            all == texts(list@),
            texts(r@) == sorted(all.take(i as int)),
        decreases list@.len() - i,
    {
        assert(all.take(i + 1).drop_last() =~= all.take(i as int));
        assert(all.take(i + 1).last() == list@[i as int]@);
        insert_each(&mut r, list[i].clone());
        i += 1;
    }
    assert(all.take(i as int) =~= all);
    r
}

proof fn lemma_with_each_keeps_order(list: Seq<Seq<char>>, text: Seq<char>)
    requires
        never_descending(list),
    ensures
        never_descending(with_each(list, text)),
    decreases list.len(),
{
    let result = with_each(list, text);
    if list.len() == 0 || !text_before(text, list.last()) {
        assert forall|i: int, j: int| 0 <= i < j < result.len() implies !text_before(
            #[trigger] result[j],
            #[trigger] result[i],
        ) by {
            if j == list.len() && text_before(text, list[i]) {
                law_text_order_total(list.last(), list[i]);
                assert(i < list.len() - 1 ==> !text_before(list[list.len() - 1], list[i]));
                if i < list.len() - 1 {
                    if list[i] != list.last() {
                        law_text_order_transitive(text, list[i], list.last());
                    }
                }
            }
        }
    } else {
        let front = list.drop_last();
        assert forall|i: int, j: int| 0 <= i < j < front.len() implies !text_before(
            #[trigger] front[j],
            #[trigger] front[i],
        ) by {
            assert(front[i] == list[i] && front[j] == list[j]);
        }
        lemma_with_each_keeps_order(front, text);
        let inner = with_each(front, text);
        lemma_with_each_holds(front, text);
        assert forall|i: int, j: int| 0 <= i < j < result.len() implies !text_before(
            #[trigger] result[j],
            #[trigger] result[i],
        ) by {
            if j == inner.len() {
                assert(inner.contains(inner[i]));
                if inner[i] == text {
                    if text_before(list.last(), text) {
                        law_text_order_transitive(text, list.last(), text);
                        law_text_order_irreflexive(text);
                    }
                } else {
                    let k = choose|k: int| 0 <= k < front.len() && front[k] == inner[i];
                    assert(list[k] == inner[i]);
                    assert(!text_before(list[list.len() - 1], list[k]));
                }
            }
        }
    }
}

proof fn lemma_with_each_holds(list: Seq<Seq<char>>, text: Seq<char>)
    ensures
        forall|other: Seq<char>| #[trigger]
            with_each(list, text).contains(other) ==> (other == text || list.contains(other)),
    decreases list.len(),
{
    let result = with_each(list, text);
    if list.len() == 0 || !text_before(text, list.last()) {
        assert forall|other: Seq<char>| #[trigger] result.contains(other) implies (other == text
            || list.contains(other)) by {
            let k = choose|k: int| 0 <= k < result.len() && result[k] == other;
            if k < list.len() {
                assert(list[k] == other);
            }
        }
    } else {
        let front = list.drop_last();
        lemma_with_each_holds(front, text);
        let inner = with_each(front, text);
        assert forall|other: Seq<char>| #[trigger] result.contains(other) implies (other == text
            || list.contains(other)) by {
            let k = choose|k: int| 0 <= k < result.len() && result[k] == other;
            if k < inner.len() {
                assert(inner.contains(other));
                if front.contains(other) {
                    let m = choose|m: int| 0 <= m < front.len() && front[m] == other;
                    assert(list[m] == other);
                }
            } else {
                assert(list[list.len() - 1] == other);
            }
        }
    }
}

/// Whether no text of a list comes before an earlier one.
pub open spec fn never_descending(list: Seq<Seq<char>>) -> bool {
    forall|i: int, j: int|
        0 <= i < j < list.len() ==> !text_before(#[trigger] list[j], #[trigger] list[i])
}

/// Sorted texts stand in order.
pub proof fn law_sorted_in_order(all: Seq<Seq<char>>)
    ensures
        never_descending(sorted(all)),
    decreases all.len(),
{
    if all.len() > 0 {
        law_sorted_in_order(all.drop_last());
        lemma_with_each_keeps_order(sorted(all.drop_last()), all.last());
    }
}

} // verus!
