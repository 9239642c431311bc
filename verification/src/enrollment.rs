//! How enrolled nodes are labelled and found again.

use crate::text::view_of;
use vstd::prelude::*;

verus! {

/// A label to set; to remove, where it has no value.
pub struct LabelChange {
    pub key: String,
    pub value: Option<String>,
}

/// The labels to set on a node's resource.
pub struct LabelPatch {
    pub resource: String,
    pub changes: Vec<LabelChange>,
}

/// The labels to set on a node's resource.
#[verifier::ext_equal]
pub struct PatchView {
    pub resource: Seq<char>,
    pub changes: Seq<(Seq<char>, Option<Seq<char>>)>,
}

/// What a patch says.
pub open spec fn patch_view(patch: LabelPatch) -> PatchView {
    PatchView {
        resource: patch.resource@,
        changes: Seq::new(
            patch.changes@.len(),
            |i: int| (patch.changes@[i].key@, view_of(patch.changes@[i].value)),
        ),
    }
}

/// What some patches say.
pub open spec fn patch_views(patches: Seq<LabelPatch>) -> Seq<PatchView> {
    Seq::new(patches.len(), |i: int| patch_view(patches[i]))
}

/// A label to set.
pub fn set_label(key: &str, value: &str) -> (result: LabelChange)
    ensures
        result.key@ == key@,
        view_of(result.value) == Some(value@),
{
    LabelChange { key: key.to_owned(), value: Some(value.to_owned()) }
}

/// A label to remove.
pub fn remove_label(key: &str) -> (result: LabelChange)
    ensures
        result.key@ == key@,
        view_of(result.value) is None,
{
    LabelChange { key: key.to_owned(), value: None }
}

/// The value that a patch gives a label; none where it does not set it.
pub open spec fn patched_label(
    changes: Seq<(Seq<char>, Option<Seq<char>>)>,
    key: Seq<char>,
) -> Option<Seq<char>>
    decreases changes.len(),
{
    if changes.len() == 0 {
        None
    } else if changes.last().0 == key {
        changes.last().1
    } else {
        patched_label(changes.drop_last(), key)
    }
}

/// A node of a static inventory: its resource, its address and its public key.
pub open spec fn member_text(node: Seq<char>, address: Seq<char>, key: Seq<char>) -> Seq<char> {
    node + "="@ + address + "="@ + key
}

/// A node of a static inventory.
pub fn write_member(node: &str, address: &str, key: &str) -> (result: String)
    ensures
        result@ == member_text(node@, address@, key@),
{
    let mut text = String::from_str(node);
    text.append("=");
    text.append(address);
    text.append("=");
    text.append(key);
    text
}

/// The message about a node that is never registered.
pub fn never_registered(resource: &str) -> (result: String)
    ensures
        result@ == "dynamic inventory never registered "@ + resource@,
{
    let mut message = String::from_str("dynamic inventory never registered ");
    message.append(resource);
    message
}

/// The address of an external agent's pod.
pub fn external_address(pod: &str, outcome: &str) -> (result: Result<String, String>)
    ensures
        match result {
            Ok(address) => address@ == crate::text::trimmed(outcome@) && address@.len() > 0,
            Err(message) => crate::text::trimmed(outcome@).len() == 0 && message@
                == "external agent "@ + pod@ + " has no pod IP yet"@,
        },
{
    let address = crate::text::trim(outcome);
    if address.unicode_len() == 0 {
        let mut message = String::from_str("external agent ");
        message.append(pod);
        message.append(" has no pod IP yet");
        Err(message)
    } else {
        Ok(address.to_owned())
    }
}

/// Where a patch changes a label more than once, the last change counts; a label that it does not name
/// it does not set.
pub proof fn the_last_change_counts(
    changes: Seq<(Seq<char>, Option<Seq<char>>)>,
    key: Seq<char>,
    value: Option<Seq<char>>,
    other: Seq<char>,
)
    ensures
        patched_label(changes.push((key, value)), key) == value,
        other != key ==> patched_label(changes.push((key, value)), other) == patched_label(
            changes,
            other,
        ),
        patched_label(Seq::<(Seq<char>, Option<Seq<char>>)>::empty(), key) is None,
{
    assert(changes.push((key, value)).drop_last() =~= changes);
}

} // verus!
