//! The recipients of a transfer and the assets chosen for each.
use vstd::prelude::*;

use crate::keyed::{KeyedList, TextKey};
use crate::model::{AccountAddress, ResourceAddress};

verus! {

/// Chosen assets by resource address: the resource's symbol and the amount as typed.
pub type Selection = KeyedList<ResourceAddress, (String, String)>;

/// A selection as plain values: symbol and amount text by resource address.
pub open spec fn selection_view(m: Map<Seq<char>, (String, String)>) -> Map<
    Seq<char>,
    (Seq<char>, Seq<char>),
> {
    m.map_values(|p: (String, String)| (p.0@, p.1@))
}

/// An amount as typed, with whether the text is a number (the check that the interface makes
/// with the standard library's float parser before it accepts the text).
pub struct AmountInput {
    pub text: String,
    pub is_number: bool,
}

/// An address as typed, with the account address that the text parses to, if it is one.
pub struct AddressInput {
    pub text: String,
    pub parsed: Option<AccountAddress>,
}

/// An optional address as its text.
pub open spec fn address_view(a: Option<AccountAddress>) -> Option<Seq<char>> {
    match a {
        Some(x) => Some(x@),
        None => None,
    }
}

pub struct Recipient {
    pub address: Option<AccountAddress>,
    pub resources: Selection,
}

impl Recipient {
    pub fn new(address: Option<AccountAddress>) -> (r: Self)
        ensures
            r.address == address,
            r.resources@ == Map::<Seq<char>, (String, String)>::empty(),
            r.resources.entries().len() == 0,
    {
        Recipient { address, resources: KeyedList::new() }
    }
}

/// A copy of a selection, entry for entry.
pub fn clone_selection(s: &Selection) -> (r: Selection)
    ensures
        r@ == s@,
{
    let mut r: Selection = KeyedList::new();
    let mut i: usize = 0;
    while i < s.len()
        invariant
            i <= s.entries().len(),
            forall|k: Seq<char>| #[trigger] r@.contains_key(k) ==> s@.contains_key(k) && r@[k] == s@[k],
            forall|j: int| 0 <= j < i ==> #[trigger] r@.contains_key(s.entries()[j].0.text()),
        decreases s.entries().len() - i,
    {
        let (k, v) = s.entry_at(i);
        r.insert(k.clone(), (v.0.clone(), v.1.clone()));
        i += 1;
    }
    assert(r@ =~= s@);
    r
}

/// The amounts after one is typed: a number replaces the amount of a chosen asset and leaves
/// its symbol; an empty text does the same; anything else, and an asset not chosen, change
/// nothing.
pub open spec fn spec_update_resource_amount(
    m: Map<Seq<char>, (String, String)>,
    resource: Seq<char>,
    input: AmountInput,
) -> Map<Seq<char>, (String, String)> {
    if (input.is_number || input.text@.len() == 0) && m.contains_key(resource) {
        m.insert(resource, (m[resource].0, input.text))
    } else {
        m
    }
}

/// Removes a recipient. The only recipient is kept but loses its address (and its assets
/// where `clear_assets` is set); an index past the end changes nothing.
pub fn remove_recipient(recipients: &mut Vec<Recipient>, index: usize, clear_assets: bool)
    requires
        old(recipients)@.len() == 1 ==> index == 0,
    ensures
        old(recipients)@.len() == 1 ==> final(recipients)@.len() == 1
            && final(recipients)@[0].address is None && final(recipients)@[0].resources@ == (
        if clear_assets {
            Map::empty()
        } else {
            old(recipients)@[0].resources@
        }),
        old(recipients)@.len() != 1 && index < old(recipients)@.len() ==> final(recipients)@
            == old(recipients)@.remove(index as int),
        old(recipients)@.len() != 1 && index >= old(recipients)@.len() ==> final(recipients)@
            == old(recipients)@,
{
    if recipients.len() == 1 {
        let mut r = recipients.remove(0);
        r.address = None;
        if clear_assets {
            r.resources.clear();
        }
        recipients.insert(0, r);
    } else if recipients.len() > index {
        recipients.remove(index);
    }
}

/// Replaces an amount of a recipient's assets.
pub fn update_resource_amount(
    recipients: &mut Vec<Recipient>,
    index: usize,
    resource: &ResourceAddress,
    input: AmountInput,
)
    requires
        index < old(recipients)@.len(),
    ensures
        final(recipients)@.len() == old(recipients)@.len(),
        forall|i: int|
            0 <= i < old(recipients)@.len() && i != index ==> #[trigger] final(recipients)@[i]
                == old(recipients)@[i],
        final(recipients)@[index as int].address == old(recipients)@[index as int].address,
        final(recipients)@[index as int].resources@ == spec_update_resource_amount(
            old(recipients)@[index as int].resources@,
            resource@,
            input,
        ),
{
    if input.is_number || input.text.as_str().is_empty() {
        let mut r = recipients.remove(index);
        match r.resources.index_of(resource) {
            Some(i) => {
                let symbol = r.resources.entry_at(i).1.0.clone();
                r.resources.set_value_at(i, (symbol, input.text));
            },
            None => {},
        }
        recipients.insert(index, r);
    }
}

/// Takes an asset off a recipient's list.
pub fn remove_asset(recipients: &mut Vec<Recipient>, index: usize, resource: &ResourceAddress)
    requires
        index < old(recipients)@.len(),
    ensures
        final(recipients)@.len() == old(recipients)@.len(),
        forall|i: int|
            0 <= i < old(recipients)@.len() && i != index ==> #[trigger] final(recipients)@[i]
                == old(recipients)@[i],
        final(recipients)@[index as int].address == old(recipients)@[index as int].address,
        final(recipients)@[index as int].resources@ == old(
            recipients,
        )@[index as int].resources@.remove(resource@),
{
    let mut r = recipients.remove(index);
    r.resources.remove(resource);
    recipients.insert(index, r);
}

/// Whether a recipient offers to be removed: all do but the first while it has no address.
pub fn offers_removal(index: usize, recipient: &Recipient) -> (r: bool)
    ensures
        r == !(index == 0 && recipient.address is None),
{
    !(index == 0 && recipient.address.is_none())
}

} // verus!
