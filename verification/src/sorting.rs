//! Lists in the order of their elements' names.

use crate::text::chars_of;
use vstd::prelude::*;

verus! {

/// Whether `left` does not come after `right`, character by character.
pub open spec fn text_le(left: Seq<char>, right: Seq<char>) -> bool
    decreases left.len(),
{
    if left.len() == 0 {
        true
    } else if right.len() == 0 {
        false
    } else if left[0] != right[0] {
        left[0] < right[0]
    } else {
        text_le(left.skip(1), right.skip(1))
    }
}

/// Whether `left` does not come after `right`.
pub fn not_after(left: &str, right: &str) -> (result: bool)
    ensures
        result == text_le(left@, right@),
{
    let a = chars_of(left);
    let b = chars_of(right);
    let mut index: usize = 0;
    assert(left@.skip(0) == left@ && right@.skip(0) == right@);
    while index < a.len() && index < b.len()
        invariant
            index <= a.len(),
            index <= b.len(),
            a@ == left@,
            b@ == right@,
            text_le(left@.skip(index as int), right@.skip(index as int)) == text_le(left@, right@),
        decreases a.len() - index,
    {
        assert(left@.skip(index as int).skip(1) == left@.skip(index + 1));
        assert(right@.skip(index as int).skip(1) == right@.skip(index + 1));
        if a[index] != b[index] {
            return a[index] < b[index];
        }
        index = index + 1;
    }
    index == a.len()
}

/// The order is reflexive.
pub proof fn text_le_reflexive(text: Seq<char>)
    ensures
        text_le(text, text),
    decreases text.len(),
{
    if text.len() > 0 {
        text_le_reflexive(text.skip(1));
    }
}

/// Of two texts, one does not come after the other.
pub proof fn text_le_total(left: Seq<char>, right: Seq<char>)
    ensures
        text_le(left, right) || text_le(right, left),
    decreases left.len(),
{
    if left.len() > 0 && right.len() > 0 && left[0] == right[0] {
        text_le_total(left.skip(1), right.skip(1));
    }
}

/// The order is transitive.
pub proof fn text_le_transitive(first: Seq<char>, second: Seq<char>, third: Seq<char>)
    requires
        text_le(first, second),
        text_le(second, third),
    ensures
        text_le(first, third),
    decreases first.len(),
{
    if first.len() > 0 && second.len() > 0 && third.len() > 0 && first[0] == second[0] && second[0]
        == third[0] {
        text_le_transitive(first.skip(1), second.skip(1), third.skip(1));
    }
}

/// Something that is listed under a name.
pub trait Named: Sized {
    spec fn name_view(&self) -> Seq<char>;

    fn name_text(&self) -> (result: &str)
        ensures
            result@ == self.name_view(),
    ;
}

/// An ordered list with `item` put behind everything that does not come after it.
pub open spec fn placed<T: Named>(ordered: Seq<T>, item: T) -> Seq<T>
    decreases ordered.len(),
{
    if ordered.len() == 0 || text_le(ordered.last().name_view(), item.name_view()) {
        ordered.push(item)
    } else {
        placed(ordered.drop_last(), item).push(ordered.last())
    }
}

/// A list in the order of its names; elements of the same name keep their order.
pub open spec fn in_name_order<T: Named>(items: Seq<T>) -> Seq<T>
    decreases items.len(),
{
    if items.len() == 0 {
        items
    } else {
        placed(in_name_order(items.drop_last()), items.last())
    }
}

proof fn lemma_placed_at<T: Named>(ordered: Seq<T>, item: T, at: int)
    requires
        0 <= at <= ordered.len(),
        at > 0 ==> text_le(ordered[at - 1].name_view(), item.name_view()),
        forall|i: int|
            at <= i < ordered.len() ==> !text_le(
                (#[trigger] ordered[i]).name_view(),
                item.name_view(),
            ),
    ensures
        placed(ordered, item) == ordered.insert(at, item),
    decreases ordered.len(),
{
    if ordered.len() == at {
        assert(ordered.insert(at, item) =~= ordered.push(item));
    } else {
        assert(!text_le(ordered[ordered.len() - 1].name_view(), item.name_view()));
        lemma_placed_at(ordered.drop_last(), item, at);
        assert(ordered.insert(at, item) =~= ordered.drop_last().insert(at, item).push(
            ordered.last(),
        ));
    }
}

proof fn lemma_order_len<T: Named>(items: Seq<T>)
    ensures
        in_name_order(items).len() == items.len(),
    decreases items.len(),
{
    if items.len() > 0 {
        lemma_order_len(items.drop_last());
        lemma_placed_len(in_name_order(items.drop_last()), items.last());
    }
}

proof fn lemma_placed_len<T: Named>(ordered: Seq<T>, item: T)
    ensures
        placed(ordered, item).len() == ordered.len() + 1,
    decreases ordered.len(),
{
    if ordered.len() > 0 {
        lemma_placed_len(ordered.drop_last(), item);
    }
}

/// Orders a list by name; elements of the same name keep their order.
pub fn sort_by_name<T: Named>(items: Vec<T>) -> (result: Vec<T>)
    ensures
        result@ == in_name_order(items@),
{
    let ghost all = items@;
    let mut rest = items;
    let mut ordered: Vec<T> = Vec::new();
    let mut reversed: Vec<T> = Vec::new();
    while rest.len() > 0
        invariant
            rest@.len() + reversed@.len() == all.len(),
            rest@ == all.take(rest@.len() as int),
            forall|i: int|
                0 <= i < reversed@.len() ==> #[trigger] reversed@[i] == all[all.len() - 1 - i],
        decreases rest.len(),
    {
        let ghost before = reversed@;
        let ghost kept = rest@;
        match rest.pop() {
            Some(item) => {
                assert(item == kept.last());
                assert(item == all[kept.len() - 1]);
                reversed.push(item);
            },
            None => {},
        }
        assert(rest@ =~= all.take(rest@.len() as int));
    }
    while reversed.len() > 0
        invariant
            reversed@.len() <= all.len(),
            forall|i: int|
                0 <= i < reversed@.len() ==> #[trigger] reversed@[i] == all[all.len() - 1 - i],
            ordered@ == in_name_order(all.take(all.len() - reversed@.len())),
        decreases reversed.len(),
    {
        let ghost done = (all.len() - reversed@.len()) as int;
        let ghost last = reversed@.last();
        match reversed.pop() {
            Some(item) => {
                assert(item == all[done]);
                assert(all.take(done + 1).drop_last() =~= all.take(done));
                assert(all.take(done + 1).last() == item);
                let mut at: usize = ordered.len();
                while at > 0 && !not_after(ordered[at - 1].name_text(), item.name_text())
                    invariant
                        at <= ordered@.len(),
                        forall|i: int|
                            at <= i < ordered@.len() ==> !text_le(
                                (#[trigger] ordered@[i]).name_view(),
                                item.name_view(),
                            ),
                    decreases at,
                {
                    at = at - 1;
                }
                proof {
                    lemma_placed_at(ordered@, item, at as int);
                    lemma_order_len(all.take(done));
                }
                ordered.insert(at, item);
            },
            None => {},
        }
    }
    assert(all.take(all.len() as int) =~= all);
    ordered
}

// ----- what ordering a list gives -----

proof fn lemma_placed_multiset<T: Named>(ordered: Seq<T>, item: T)
    ensures
        placed(ordered, item).to_multiset() == ordered.to_multiset().insert(item),
    decreases ordered.len(),
{
    broadcast use vstd::seq_lib::group_to_multiset_ensures;
    if ordered.len() == 0 || text_le(ordered.last().name_view(), item.name_view()) {
    } else {
        lemma_placed_multiset(ordered.drop_last(), item);
        assert(ordered =~= ordered.drop_last().push(ordered.last()));
        assert(placed(ordered, item).to_multiset() =~= ordered.to_multiset().insert(item));
    }
}

/// Ordering a list neither drops nor adds an element.
pub proof fn ordering_permutes<T: Named>(items: Seq<T>)
    ensures
        in_name_order(items).to_multiset() == items.to_multiset(),
    decreases items.len(),
{
    broadcast use vstd::seq_lib::group_to_multiset_ensures;
    if items.len() > 0 {
        ordering_permutes(items.drop_last());
        lemma_placed_multiset(in_name_order(items.drop_last()), items.last());
        assert(items =~= items.drop_last().push(items.last()));
    }
}

/// Whether every element of a list comes no later than those after it.
pub open spec fn is_ordered<T: Named>(items: Seq<T>) -> bool {
    forall|i: int, j: int|
        0 <= i <= j < items.len() ==> text_le(
            (#[trigger] items[i]).name_view(),
            (#[trigger] items[j]).name_view(),
        )
}

proof fn lemma_placed_ordered<T: Named>(ordered: Seq<T>, item: T, bound: Seq<char>)
    requires
        is_ordered(ordered),
        text_le(item.name_view(), bound),
        forall|i: int| 0 <= i < ordered.len() ==> text_le((#[trigger] ordered[i]).name_view(), bound),
    ensures
        is_ordered(placed(ordered, item)),
        forall|i: int|
            0 <= i < placed(ordered, item).len() ==> text_le(
                (#[trigger] placed(ordered, item)[i]).name_view(),
                bound,
            ),
    decreases ordered.len(),
{
    text_le_reflexive(item.name_view());
    if ordered.len() == 0 || text_le(ordered.last().name_view(), item.name_view()) {
        let after = ordered.push(item);
        assert forall|i: int, j: int| 0 <= i <= j < after.len() implies text_le(
            (#[trigger] after[i]).name_view(),
            (#[trigger] after[j]).name_view(),
        ) by {
            if j == ordered.len() && i < j {
                assert(text_le(ordered[i].name_view(), ordered[ordered.len() - 1].name_view()));
                text_le_transitive(
                    ordered[i].name_view(),
                    ordered.last().name_view(),
                    item.name_view(),
                );
            }
        }
    } else {
        let last = ordered.last();
        text_le_total(last.name_view(), item.name_view());
        assert forall|i: int| 0 <= i < ordered.drop_last().len() implies text_le(
            (#[trigger] ordered.drop_last()[i]).name_view(),
            last.name_view(),
        ) by {
            assert(text_le(ordered[i].name_view(), ordered[ordered.len() - 1].name_view()));
        }
        lemma_placed_ordered(ordered.drop_last(), item, last.name_view());
        let inner = placed(ordered.drop_last(), item);
        let after = placed(ordered, item);
        text_le_reflexive(last.name_view());
        assert forall|i: int, j: int| 0 <= i <= j < after.len() implies text_le(
            (#[trigger] after[i]).name_view(),
            (#[trigger] after[j]).name_view(),
        ) by {
            if j < inner.len() {
                assert(after[i] == inner[i] && after[j] == inner[j]);
            } else if i < inner.len() {
                assert(after[i] == inner[i]);
            }
        }
        assert(text_le(ordered[ordered.len() - 1].name_view(), bound));
        assert forall|i: int| 0 <= i < after.len() implies text_le(
            (#[trigger] after[i]).name_view(),
            bound,
        ) by {
            if i < inner.len() {
                assert(after[i] == inner[i]);
                text_le_transitive(inner[i].name_view(), last.name_view(), bound);
            }
        }
    }
}

proof fn lemma_placed_keeps_order<T: Named>(ordered: Seq<T>, item: T)
    requires
        is_ordered(ordered),
    ensures
        is_ordered(placed(ordered, item)),
{
    let last = ordered.last();
    if ordered.len() > 0 && !text_le(last.name_view(), item.name_view()) {
        text_le_total(last.name_view(), item.name_view());
        assert forall|i: int| 0 <= i < ordered.len() implies text_le(
            (#[trigger] ordered[i]).name_view(),
            last.name_view(),
        ) by {
            assert(text_le(ordered[i].name_view(), ordered[ordered.len() - 1].name_view()));
        }
        lemma_placed_ordered(ordered, item, last.name_view());
    } else {
        text_le_reflexive(item.name_view());
        assert forall|i: int| 0 <= i < ordered.len() implies text_le(
            (#[trigger] ordered[i]).name_view(),
            item.name_view(),
        ) by {
            assert(text_le(ordered[i].name_view(), ordered[ordered.len() - 1].name_view()));
            text_le_transitive(ordered[i].name_view(), last.name_view(), item.name_view());
        }
        lemma_placed_ordered(ordered, item, item.name_view());
    }
}

/// Ordering a list orders it.
pub proof fn ordering_orders<T: Named>(items: Seq<T>)
    ensures
        is_ordered(in_name_order(items)),
    decreases items.len(),
{
    if items.len() > 0 {
        ordering_orders(items.drop_last());
        lemma_placed_keeps_order(in_name_order(items.drop_last()), items.last());
    }
}

/// Two texts are ordered by the first character in which they differ; a text comes before one that goes
/// on where it ends.
pub proof fn texts_are_ordered_by_their_first_difference(
    common: Seq<char>,
    left: Seq<char>,
    right: Seq<char>,
)
    requires
        left.len() > 0 && right.len() > 0 ==> left[0] != right[0],
    ensures
        text_le(common + left, common + right) <==> left.len() == 0 || (right.len() > 0 && left[0]
            < right[0]),
    decreases common.len(),
{
    let first = common + left;
    let second = common + right;
    if common.len() == 0 {
        assert(first =~= left && second =~= right);
    } else {
        texts_are_ordered_by_their_first_difference(common.skip(1), left, right);
        assert(first.skip(1) =~= common.skip(1) + left);
        assert(second.skip(1) =~= common.skip(1) + right);
        assert(first[0] == second[0]);
    }
}

proof fn lemma_namesakes_of_placed<T: Named>(ordered: Seq<T>, item: T, name: Seq<char>)
    ensures
        placed(ordered, item).filter(|other: T| other.name_view() == name) == (if item.name_view()
            == name {
            ordered.filter(|other: T| other.name_view() == name).push(item)
        } else {
            ordered.filter(|other: T| other.name_view() == name)
        }),
    decreases ordered.len(),
{
    let named = |other: T| other.name_view() == name;
    text_le_reflexive(item.name_view());
    if ordered.len() == 0 || text_le(ordered.last().name_view(), item.name_view()) {
        crate::demo::fleet::lemma_filter_push(ordered, item, named);
    } else {
        let before = ordered.drop_last();
        let last = ordered.last();
        lemma_namesakes_of_placed(before, item, name);
        crate::demo::fleet::lemma_filter_push(placed(before, item), last, named);
        crate::demo::fleet::lemma_filter_push(before, last, named);
        assert(before.push(last) =~= ordered);
    }
}

/// Ordering a list keeps the order of the elements with the same name.
pub proof fn ordering_keeps_namesakes_in_order<T: Named>(items: Seq<T>, name: Seq<char>)
    ensures
        in_name_order(items).filter(|other: T| other.name_view() == name) == items.filter(
            |other: T| other.name_view() == name,
        ),
    decreases items.len(),
{
    if items.len() > 0 {
        let before = items.drop_last();
        ordering_keeps_namesakes_in_order(before, name);
        lemma_namesakes_of_placed(in_name_order(before), items.last(), name);
        crate::demo::fleet::lemma_filter_push(
            before,
            items.last(),
            |other: T| other.name_view() == name,
        );
        assert(before.push(items.last()) =~= items);
    }
}

} // verus!
