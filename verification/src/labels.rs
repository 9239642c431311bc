//! The labels of a resource.

use crate::text::same;
use vstd::prelude::*;

verus! {

/// A label and its value.
pub struct Label {
    pub key: String,
    pub value: String,
}

/// The value of a label, if it is there.
pub open spec fn label_of(labels: Seq<Label>, key: Seq<char>) -> Option<String>
    decreases labels.len(),
{
    if labels.len() == 0 {
        None
    } else if labels.last().key@ == key {
        Some(labels.last().value)
    } else {
        label_of(labels.drop_last(), key)
    }
}

/// The value of a label, if it is there.
pub fn get_label(labels: &Vec<Label>, key: &str) -> (result: Option<String>)
    ensures
        result == label_of(labels@, key@),
{
    let mut index: usize = labels.len();
    assert(labels@.take(labels@.len() as int) =~= labels@);
    while index > 0
        invariant
            index <= labels.len(),
            label_of(labels@.take(index as int), key@) == label_of(labels@, key@),
        decreases index,
    {
        let ghost first = labels@.take(index as int);
        assert(first.last() == labels@[index - 1]);
        assert(first.drop_last() =~= labels@.take(index - 1));
        if same(labels[index - 1].key.as_str(), key) {
            return Some(labels[index - 1].value.clone());
        }
        index = index - 1;
    }
    None
}

/// Each label as `key=value`.
pub open spec fn label_texts(labels: Seq<Label>) -> Seq<Seq<char>> {
    Seq::new(labels.len(), |i: int| labels[i].key@ + "="@ + labels[i].value@)
}

/// Each label as `key=value`.
pub fn write_labels(labels: &Vec<Label>) -> (result: Vec<String>)
    ensures
        crate::text::views(result@) == label_texts(labels@),
{
    let mut result: Vec<String> = Vec::new();
    let mut index: usize = 0;
    while index < labels.len()
        invariant
            index <= labels.len(),
            crate::text::views(result@) == label_texts(labels@).take(index as int),
        decreases labels.len() - index,
    {
        let ghost before = result@;
        let mut item = labels[index].key.clone();
        item.append("=");
        item.append(labels[index].value.as_str());
        result.push(item);
        assert(crate::text::views(result@) =~= crate::text::views(before).push(item@));
        assert(label_texts(labels@).take(index + 1) =~= label_texts(labels@).take(
            index as int,
        ).push(item@));
        index = index + 1;
    }
    assert(label_texts(labels@).take(labels.len() as int) =~= label_texts(labels@));
    result
}

/// A label is there exactly when one of the labels has its key; where several do, the last of them
/// says its value.
pub proof fn the_last_label_of_a_key_counts(labels: Seq<Label>, key: Seq<char>)
    ensures
        label_of(labels, key) is None <==> (forall|i: int|
            0 <= i < labels.len() ==> (#[trigger] labels[i]).key@ != key),
        forall|i: int|
            0 <= i < labels.len() && (#[trigger] labels[i]).key@ == key && (forall|j: int|
                i < j < labels.len() ==> (#[trigger] labels[j]).key@ != key) ==> label_of(labels, key)
                == Some(labels[i].value),
    decreases labels.len(),
{
    if labels.len() > 0 {
        let before = labels.drop_last();
        the_last_label_of_a_key_counts(before, key);
        assert(labels.last() == labels[labels.len() - 1]);
        assert forall|i: int| 0 <= i < before.len() implies before[i] == labels[i] by {}
        if label_of(labels, key) is None {
            assert forall|i: int| 0 <= i < labels.len() implies (#[trigger] labels[i]).key@
                != key by {
                if i < before.len() {
                    assert(before[i].key@ != key);
                }
            }
        }
        if forall|i: int| 0 <= i < labels.len() ==> (#[trigger] labels[i]).key@ != key {
            assert forall|i: int| 0 <= i < before.len() implies (#[trigger] before[i]).key@
                != key by {
                assert(labels[i].key@ != key);
            }
        }
        assert forall|i: int|
            0 <= i < labels.len() && (#[trigger] labels[i]).key@ == key && (forall|j: int|
                i < j < labels.len() ==> (#[trigger] labels[j]).key@ != key) implies label_of(
            labels,
            key,
        ) == Some(labels[i].value) by {
            if i < before.len() {
                assert(labels[labels.len() - 1].key@ != key);
                assert(before[i].key@ == key);
                assert forall|j: int| i < j < before.len() implies (#[trigger] before[j]).key@
                    != key by {
                    assert(labels[j].key@ != key);
                }
            }
        }
    }
}

/// Every label is written as its key, an equals sign and its value, in order.
pub proof fn labels_are_written_in_order(labels: Seq<Label>, index: int)
    requires
        0 <= index < labels.len(),
    ensures
        label_texts(labels).len() == labels.len(),
        label_texts(labels)[index] == labels[index].key@ + "="@ + labels[index].value@,
{
}

} // verus!
