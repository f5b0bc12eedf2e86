//! The order of texts, and the stable order of a list by rank and name.
use vstd::prelude::*;

use crate::text::{chars_of, same_text, texts};

verus! {

/// Whether `a` comes before `b`: at the first place where they differ, the
/// smaller character decides; a proper beginning comes before the whole.
pub open spec fn text_lt(a: Seq<char>, b: Seq<char>) -> bool
    decreases a.len(),
{
    if b.len() == 0 {
        false
    } else if a.len() == 0 {
        true
    } else if a[0] != b[0] {
        a[0] < b[0]
    } else {
        text_lt(a.skip(1), b.skip(1))
    }
}

/// Of two texts exactly one holds: they are equal, the first comes before
/// the second, or the second before the first.
pub proof fn text_order_is_total(a: Seq<char>, b: Seq<char>)
    ensures
        a == b ==> !text_lt(a, b) && !text_lt(b, a),
        a != b ==> text_lt(a, b) != text_lt(b, a),
    decreases a.len(),
{
    if a.len() == 0 || b.len() == 0 {
        if a.len() == b.len() {
            assert(a =~= b);
        }
    } else if a[0] == b[0] {
        text_order_is_total(a.skip(1), b.skip(1));
        if a.skip(1) == b.skip(1) {
            assert(a =~= seq![a[0]] + a.skip(1));
            assert(b =~= seq![b[0]] + b.skip(1));
        }
    }
}

pub proof fn text_order_is_transitive(a: Seq<char>, b: Seq<char>, c: Seq<char>)
    requires
        text_lt(a, b),
        text_lt(b, c),
    ensures
        text_lt(a, c),
    decreases a.len(),
{
    if a.len() > 0 && a[0] == b[0] && b[0] == c[0] {
        text_order_is_transitive(a.skip(1), b.skip(1), c.skip(1));
    }
}

/// Whether `left` comes before `right`.
pub fn text_before(left: &str, right: &str) -> (before: bool)
    ensures
        before == text_lt(left@, right@),
{
    let a: Vec<char> = chars_of(left);
    let b: Vec<char> = chars_of(right);
    let mut i: usize = 0;
    assert(a@.skip(0) =~= a@);
    assert(b@.skip(0) =~= b@);
    while i < a.len() && i < b.len()
        invariant
            i <= a.len(),
            i <= b.len(),
            a@ == left@,
            b@ == right@,
            text_lt(a@, b@) == text_lt(a@.skip(i as int), b@.skip(i as int)),
        decreases a.len() - i,
    {
        assert(a@.skip(i as int).skip(1) =~= a@.skip(i + 1));
        assert(b@.skip(i as int).skip(1) =~= b@.skip(i + 1));
        if a[i] != b[i] {
            return a[i] < b[i];
        }
        i += 1;
    }
    i == a.len() && i < b.len()
}

/// Whether the item at `i` goes before the item at `j`: by rank, then by
/// name, and of items alike in both the earlier one.
pub open spec fn goes_before(ranks: Seq<u8>, names: Seq<Seq<char>>, i: int, j: int) -> bool {
    ||| ranks[i] < ranks[j]
    ||| ranks[i] == ranks[j] && text_lt(names[i], names[j])
    ||| ranks[i] == ranks[j] && names[i] == names[j] && i < j
}

/// Whether `order` lists the places `0..names.len()`, each once, so that
/// every item goes before those listed behind it.
pub open spec fn is_stable_order(ranks: Seq<u8>, names: Seq<Seq<char>>, order: Seq<int>) -> bool {
    &&& order.len() == names.len()
    &&& forall|x: int| 0 <= x < order.len() ==> 0 <= #[trigger] order[x] < names.len()
    &&& forall|i: int| 0 <= i < names.len() ==> #[trigger] order.contains(i)
    &&& forall|x: int, y: int|
        0 <= x < y < order.len() ==> goes_before(ranks, names, #[trigger] order[x], #[trigger] order[y])
}

/// The stable order of a list.
pub open spec fn sorted_places(ranks: Seq<u8>, names: Seq<Seq<char>>) -> Seq<int> {
    choose|order: Seq<int>| is_stable_order(ranks, names, order)
}

/// The places of an executable list as integers.
pub open spec fn places(order: Seq<usize>) -> Seq<int> {
    Seq::new(order.len(), |x: int| order[x] as int)
}

proof fn lemma_goes_before_transitive(
    ranks: Seq<u8>,
    names: Seq<Seq<char>>,
    i: int,
    j: int,
    k: int,
)
    requires
        goes_before(ranks, names, i, j),
        goes_before(ranks, names, j, k),
    ensures
        goes_before(ranks, names, i, k),
{
    if text_lt(names[i], names[j]) && text_lt(names[j], names[k]) {
        text_order_is_transitive(names[i], names[j], names[k]);
    }
}

proof fn lemma_goes_before_asymmetric(ranks: Seq<u8>, names: Seq<Seq<char>>, i: int, j: int)
    requires
        goes_before(ranks, names, i, j),
    ensures
        !goes_before(ranks, names, j, i),
        i != j,
{
    text_order_is_total(names[i], names[j]);
}

/// The places with `place` put behind all that go before it.
spec fn put_in_order(
    ranks: Seq<u8>,
    names: Seq<Seq<char>>,
    order: Seq<int>,
    place: int,
) -> Seq<int>
    decreases order.len(),
{
    if order.len() == 0 || goes_before(ranks, names, order.last(), place) {
        order.push(place)
    } else {
        put_in_order(ranks, names, order.drop_last(), place).push(order.last())
    }
}

proof fn lemma_put_in_order(ranks: Seq<u8>, names: Seq<Seq<char>>, order: Seq<int>, place: int)
    requires
        forall|x: int| 0 <= x < order.len() ==> #[trigger] order[x] != place,
        forall|x: int, y: int|
            0 <= x < y < order.len() ==> goes_before(
                ranks,
                names,
                #[trigger] order[x],
                #[trigger] order[y],
            ),
    ensures
        ({
            let all = put_in_order(ranks, names, order, place);
            &&& all.len() == order.len() + 1
            &&& all.contains(place)
            &&& forall|x: int| 0 <= x < order.len() ==> all.contains(#[trigger] order[x])
            &&& forall|x: int|
                0 <= x < all.len() ==> #[trigger] all[x] == place || order.contains(all[x])
            &&& forall|x: int, y: int|
                0 <= x < y < all.len() ==> goes_before(
                    ranks,
                    names,
                    #[trigger] all[x],
                    #[trigger] all[y],
                )
        }),
    decreases order.len(),
{
    let all = put_in_order(ranks, names, order, place);
    if order.len() == 0 || goes_before(ranks, names, order.last(), place) {
        assert(all[order.len() as int] == place);
        assert forall|x: int| 0 <= x < order.len() implies all.contains(#[trigger] order[x]) by {
            assert(all[x] == order[x]);
        }
        assert forall|x: int| 0 <= x < order.len() implies goes_before(
            ranks,
            names,
            #[trigger] order[x],
            place,
        ) by {
            if x < order.len() - 1 {
                lemma_goes_before_transitive(ranks, names, order[x], order.last(), place);
            }
        }
    } else {
        let last = order.last();
        let before = order.drop_last();
        let inner = put_in_order(ranks, names, before, place);
        lemma_put_in_order(ranks, names, before, place);
        text_order_is_total(names[last], names[place]);
        assert(goes_before(ranks, names, place, last));
        assert forall|x: int| 0 <= x < inner.len() implies goes_before(
            ranks,
            names,
            #[trigger] inner[x],
            last,
        ) by {
            if inner[x] != place {
                let k = choose|k: int| 0 <= k < before.len() && before[k] == inner[x];
                assert(order[k] == inner[x]);
            }
        }
        let at = choose|at: int| 0 <= at < inner.len() && inner[at] == place;
        assert(all[at] == place);
        assert(all[inner.len() as int] == last);
        assert forall|x: int| 0 <= x < order.len() implies all.contains(#[trigger] order[x]) by {
            if x < before.len() {
                assert(before[x] == order[x]);
                let k = choose|k: int| 0 <= k < inner.len() && inner[k] == before[x];
                assert(all[k] == order[x]);
            }
        }
        assert forall|x: int| 0 <= x < all.len() implies #[trigger] all[x] == place
            || order.contains(all[x]) by {
            if x < inner.len() && inner[x] != place {
                let k = choose|k: int| 0 <= k < before.len() && before[k] == inner[x];
                assert(order[k] == all[x]);
            } else if x == inner.len() {
                assert(order[order.len() - 1] == all[x]);
            }
        }
    }
}

/// The first places of a list in a stable order.
spec fn ordered_places(ranks: Seq<u8>, names: Seq<Seq<char>>, count: nat) -> Seq<int>
    decreases count,
{
    if count == 0 {
        Seq::empty()
    } else {
        put_in_order(ranks, names, ordered_places(ranks, names, (count - 1) as nat), count - 1)
    }
}

proof fn lemma_ordered_places(ranks: Seq<u8>, names: Seq<Seq<char>>, count: nat)
    ensures
        ({
            let order = ordered_places(ranks, names, count);
            &&& order.len() == count
            &&& forall|x: int| 0 <= x < order.len() ==> 0 <= #[trigger] order[x] < count
            &&& forall|i: int| 0 <= i < count ==> #[trigger] order.contains(i)
            &&& forall|x: int, y: int|
                0 <= x < y < order.len() ==> goes_before(
                    ranks,
                    names,
                    #[trigger] order[x],
                    #[trigger] order[y],
                )
        }),
    decreases count,
{
    if count > 0 {
        let before = ordered_places(ranks, names, (count - 1) as nat);
        let order = ordered_places(ranks, names, count);
        lemma_ordered_places(ranks, names, (count - 1) as nat);
        lemma_put_in_order(ranks, names, before, count - 1);
        assert forall|i: int| 0 <= i < count implies #[trigger] order.contains(i) by {
            if i < count - 1 {
                assert(before.contains(i));
                let k = choose|k: int| 0 <= k < before.len() && before[k] == i;
                assert(order.contains(before[k]));
            }
        }
        assert forall|x: int| 0 <= x < order.len() implies 0 <= #[trigger] order[x] < count by {
            if order[x] != count - 1 {
                let k = choose|k: int| 0 <= k < before.len() && before[k] == order[x];
                assert(before[k] == order[x]);
            }
        }
    }
}

/// Every list has a stable order.
pub proof fn stable_order_exists(ranks: Seq<u8>, names: Seq<Seq<char>>)
    ensures
        is_stable_order(ranks, names, sorted_places(ranks, names)),
{
    lemma_ordered_places(ranks, names, names.len());
    assert(is_stable_order(ranks, names, ordered_places(ranks, names, names.len())));
}

/// There is only one stable order of a list.
pub proof fn stable_order_is_unique(
    ranks: Seq<u8>,
    names: Seq<Seq<char>>,
    one: Seq<int>,
    other: Seq<int>,
)
    requires
        is_stable_order(ranks, names, one),
        is_stable_order(ranks, names, other),
    ensures
        one == other,
{
    assert forall|x: int| 0 <= x < one.len() implies one[x] == other[x] by {
        lemma_same_place(ranks, names, one, other, x);
    }
    assert(one =~= other);
}

proof fn lemma_same_place(
    ranks: Seq<u8>,
    names: Seq<Seq<char>>,
    one: Seq<int>,
    other: Seq<int>,
    x: int,
)
    requires
        is_stable_order(ranks, names, one),
        is_stable_order(ranks, names, other),
        0 <= x < one.len(),
    ensures
        one[x] == other[x],
    decreases x,
{
    assert forall|y: int| 0 <= y < x implies one[y] == other[y] by {
        lemma_same_place(ranks, names, one, other, y);
    }
    if one[x] != other[x] {
        assert(other.contains(one[x]));
        assert(one.contains(other[x]));
        let a = choose|a: int| 0 <= a < other.len() && other[a] == one[x];
        let b = choose|b: int| 0 <= b < one.len() && one[b] == other[x];
        if a < x {
            assert(one[a] == one[x]);
            assert(goes_before(ranks, names, one[a], one[x]));
            lemma_goes_before_asymmetric(ranks, names, one[a], one[x]);
        }
        if b < x {
            assert(other[b] == other[x]);
            assert(goes_before(ranks, names, other[b], other[x]));
            lemma_goes_before_asymmetric(ranks, names, other[b], other[x]);
        }
        assert(goes_before(ranks, names, other[x], other[a]));
        assert(goes_before(ranks, names, one[x], one[b]));
        lemma_goes_before_asymmetric(ranks, names, one[x], one[b]);
    }
}

/// The stable order of a list whose items have the given ranks and names.
pub fn stable_order(ranks: &Vec<u8>, names: &Vec<String>) -> (order: Vec<usize>)
    requires
        ranks.len() == names.len(),
    ensures
        is_stable_order(ranks@, texts(names@), places(order@)),
        places(order@) == sorted_places(ranks@, texts(names@)),
{
    let mut order: Vec<usize> = Vec::new();
    let mut i: usize = 0;
    let ghost words = texts(names@);
    while i < names.len()
        invariant
            i <= names.len(),
            ranks.len() == names.len(),
            words == texts(names@),
            order.len() == i,
            forall|x: int| 0 <= x < i ==> 0 <= #[trigger] order@[x] < i,
            forall|k: usize| k < i ==> #[trigger] order@.contains(k),
            forall|x: int, y: int|
                0 <= x < y < i ==> goes_before(
                    ranks@,
                    words,
                    #[trigger] order@[x] as int,
                    #[trigger] order@[y] as int,
                ),
        decreases names.len() - i,
    {
        let mut at: usize = i;
        while at > 0 && (ranks[i] < ranks[order[at - 1]] || (ranks[i] == ranks[order[at - 1]]
            && text_before(names[i].as_str(), names[order[at - 1]].as_str())))
            invariant
                at <= i < names.len(),
                order.len() == i,
                ranks.len() == names.len(),
                words == texts(names@),
                forall|x: int| 0 <= x < i ==> 0 <= #[trigger] order@[x] < i,
                forall|y: int|
                    at <= y < i ==> goes_before(
                        ranks@,
                        words,
                        i as int,
                        #[trigger] order@[y] as int,
                    ),
            decreases at,
        {
            at -= 1;
        }
        let ghost old_order = order@;
        proof {
            if at > 0 {
                let last = old_order[at - 1] as int;
                text_order_is_total(words[i as int], words[last]);
                assert(goes_before(ranks@, words, last, i as int));
                assert forall|x: int| 0 <= x < at implies goes_before(
                    ranks@,
                    words,
                    #[trigger] old_order[x] as int,
                    i as int,
                ) by {
                    if x < at - 1 {
                        lemma_goes_before_transitive(
                            ranks@,
                            words,
                            old_order[x] as int,
                            last,
                            i as int,
                        );
                    }
                }
            }
        }
        order.insert(at, i);
        proof {
            assert(order@ == old_order.insert(at as int, i));
            assert forall|k: usize| k < i + 1 implies #[trigger] order@.contains(k) by {
                if k == i {
                    assert(order@[at as int] == i);
                } else {
                    assert(old_order.contains(k));
                    let x = choose|x: int| 0 <= x < old_order.len() && old_order[x] == k;
                    if x < at {
                        assert(order@[x] == k);
                    } else {
                        assert(order@[x + 1] == k);
                    }
                }
            }
            assert forall|x: int, y: int| 0 <= x < y < i + 1 implies goes_before(
                ranks@,
                words,
                #[trigger] order@[x] as int,
                #[trigger] order@[y] as int,
            ) by {
                let x0 = if x < at { x } else { x - 1 };
                let y0 = if y < at { y } else { y - 1 };
                if x != at && y != at {
                    assert(order@[x] == old_order[x0]);
                    assert(order@[y] == old_order[y0]);
                } else if x == at {
                    assert(order@[y] == old_order[y0]);
                } else {
                    assert(order@[x] == old_order[x0]);
                }
            }
        }
        i += 1;
    }
    proof {
        assert forall|k: int| 0 <= k < words.len() implies #[trigger] places(order@).contains(
            k,
        ) by {
            assert(order@.contains(k as usize));
            let x = choose|x: int| 0 <= x < order@.len() && order@[x] == k as usize;
            assert(places(order@)[x] == k);
        }
        assert(is_stable_order(ranks@, words, places(order@)));
        stable_order_is_unique(
            ranks@,
            words,
            places(order@),
            sorted_places(ranks@, words),
        );
    }
    order
}

/// Whether `list` holds the texts of the set, each once and in order.
pub open spec fn is_sorted_list(list: Seq<Seq<char>>, of: Set<Seq<char>>) -> bool {
    &&& forall|i: int, j: int|
        0 <= i < j < list.len() ==> text_lt(#[trigger] list[i], #[trigger] list[j])
    &&& forall|i: int| 0 <= i < list.len() ==> of.contains(#[trigger] list[i])
    &&& forall|text: Seq<char>| #[trigger] of.contains(text) ==> list.contains(text)
}

/// The texts of a finite set in order.
pub open spec fn sorted_list(of: Set<Seq<char>>) -> Seq<Seq<char>> {
    choose|list: Seq<Seq<char>>| is_sorted_list(list, of)
}

/// The texts of a set can be listed in order in one way only.
pub proof fn sorted_list_is_unique(
    of: Set<Seq<char>>,
    one: Seq<Seq<char>>,
    other: Seq<Seq<char>>,
)
    requires
        is_sorted_list(one, of),
        is_sorted_list(other, of),
    ensures
        one == other,
{
    lemma_sorted_lists_agree(of, one, other, one.len() as int);
    lemma_sorted_lists_agree(of, other, one, other.len() as int);
    assert(one =~= other);
}

proof fn lemma_sorted_lists_agree(
    of: Set<Seq<char>>,
    one: Seq<Seq<char>>,
    other: Seq<Seq<char>>,
    n: int,
)
    requires
        is_sorted_list(one, of),
        is_sorted_list(other, of),
        0 <= n <= one.len(),
    ensures
        n <= other.len(),
        forall|i: int| 0 <= i < n ==> #[trigger] one[i] == other[i],
    decreases n,
{
    if n > 0 {
        lemma_sorted_lists_agree(of, one, other, n - 1);
        let x = one[n - 1];
        assert(of.contains(x));
        assert(other.contains(x));
        let k = choose|k: int| 0 <= k < other.len() && other[k] == x;
        if k < n - 1 {
            assert(one[k] == other[k]);
            assert(text_lt(one[k], one[n - 1]));
            text_order_is_total(x, x);
        }
        if k > n - 1 {
            let y = other[n - 1];
            assert(text_lt(y, x));
            assert(of.contains(y));
            assert(one.contains(y));
            let m = choose|m: int| 0 <= m < one.len() && one[m] == y;
            if m < n - 1 {
                assert(one[m] == other[m]);
                assert(text_lt(other[m], other[n - 1]));
                text_order_is_total(y, y);
            } else if m > n - 1 {
                assert(text_lt(x, y));
                text_order_is_total(x, y);
            } else {
                text_order_is_total(x, y);
            }
        }
    }
}

/// The texts of a list in order, each once.
pub fn sorted_unique(list: &Vec<String>) -> (sorted: Vec<String>)
    ensures
        is_sorted_list(texts(sorted@), texts(list@).to_set()),
        texts(sorted@) == sorted_list(texts(list@).to_set()),
{
    let mut ranks: Vec<u8> = Vec::new();
    while ranks.len() < list.len()
        invariant
            ranks.len() <= list.len(),
            forall|i: int| 0 <= i < ranks.len() ==> ranks@[i] == 0,
        decreases list.len() - ranks.len(),
    {
        ranks.push(0);
    }
    let order: Vec<usize> = stable_order(&ranks, list);
    let ghost words = texts(list@);
    let ghost found = places(order@);
    let mut sorted: Vec<String> = Vec::new();
    let mut i: usize = 0;
    while i < order.len()
        invariant
            i <= order.len(),
            words == texts(list@),
            found == places(order@),
            ranks.len() == list.len(),
            forall|k: int| 0 <= k < ranks.len() ==> ranks@[k] == 0,
            is_stable_order(ranks@, words, found),
            forall|x: int, y: int|
                0 <= x < y < sorted.len() ==> text_lt(
                    #[trigger] texts(sorted@)[x],
                    #[trigger] texts(sorted@)[y],
                ),
            forall|x: int|
                0 <= x < sorted.len() ==> words.to_set().contains(#[trigger] texts(sorted@)[x]),
            forall|k: int| 0 <= k < i ==> texts(sorted@).contains(words[#[trigger] found[k]]),
            i > 0 ==> sorted.len() > 0 && texts(sorted@).last() == words[found[i - 1]],
            i == 0 ==> sorted.len() == 0,
        decreases order.len() - i,
    {
        let place: usize = order[i];
        assert(found[i as int] == place);
        let ghost before = texts(sorted@);
        let known: bool = i > 0 && same_text(list[place].as_str(), list[order[i - 1]].as_str());
        if !known {
            sorted.push(list[place].clone());
            proof {
                let after = texts(sorted@);
                assert(after =~= before.push(words[place as int]));
                assert(words.contains(words[place as int]));
                if i > 0 {
                    let last = found[i - 1];
                    assert(goes_before(ranks@, words, last, place as int));
                    assert(text_lt(words[last], words[place as int]));
                    assert forall|x: int| 0 <= x < before.len() implies text_lt(
                        #[trigger] before[x],
                        words[place as int],
                    ) by {
                        if x < before.len() - 1 {
                            text_order_is_transitive(
                                before[x],
                                before.last(),
                                words[place as int],
                            );
                        }
                    }
                }
                assert forall|k: int| 0 <= k < i + 1 implies after.contains(
                    words[#[trigger] found[k]],
                ) by {
                    if k < i {
                        let x = choose|x: int|
                            0 <= x < before.len() && before[x] == words[found[k]];
                        assert(after[x] == words[found[k]]);
                    } else {
                        assert(after[before.len() as int] == words[found[k]]);
                    }
                }
            }
        } else {
            assert(before.contains(words[found[i as int]])) by {
                assert(before[before.len() - 1] == words[found[i as int]]);
            }
        }
        i += 1;
    }
    proof {
        let result = texts(sorted@);
        assert forall|text: Seq<char>| #[trigger] words.to_set().contains(text) implies
            result.contains(text) by {
            let k = choose|k: int| 0 <= k < words.len() && words[k] == text;
            assert(found.contains(k));
            let x = choose|x: int| 0 <= x < found.len() && found[x] == k;
            assert(result.contains(words[found[x]]));
        }
        assert(is_sorted_list(result, words.to_set()));
        sorted_list_is_unique(words.to_set(), result, sorted_list(words.to_set()));
    }
    sorted
}

} // verus!
