//! The screen that picks assets and amounts for one recipient.
use vstd::prelude::*;

use crate::app_data::AppData;
use crate::keyed::{entries_map, keys_unique, lemma_same_keys, KeyedList, TextKey};
use crate::model::{AccountAddress, FungibleAsset, Resource, ResourceAddress};
use crate::ranks::{count_before, lemma_count_before_drop_last, lemma_count_before_grows};
use crate::text::{ascii_lowercase, contains_text, lowercase_ascii, occurs_in};

use super::recipients::{selection_view, AmountInput, Recipient, Selection};

verus! {

pub enum Message {
    SetTab(AssetTab),
    FilterInput(String),
    InputAmount(ResourceAddress, String, AmountInput),
    InputMaxSelected,
    SelectAllTokens,
    SelectAsset(ResourceAddress, String),
    UnselectAllTokens,
    UnselectAsset(ResourceAddress),
    SubmitAssets,
}

#[derive(PartialEq, Eq, Structural, Clone, Copy, Debug)]
pub enum AssetTab {
    Tokens,
    NFTs,
}

pub struct AddAssets {
    pub tab: AssetTab,
    pub from_account: AccountAddress,
    pub recipient_index: usize,
    /// The search text, in lower case.
    pub filter: String,
    pub selected: Selection,
    pub select_all: bool,
}

/// The screen as plain values.
pub struct AddAssetsView {
    pub tab: AssetTab,
    pub from_account: Seq<char>,
    pub recipient_index: usize,
    pub filter: Seq<char>,
    pub selected: Map<Seq<char>, (Seq<char>, Seq<char>)>,
    pub select_all: bool,
}

impl View for AddAssets {
    type V = AddAssetsView;

    open spec fn view(&self) -> AddAssetsView {
        AddAssetsView {
            tab: self.tab,
            from_account: self.from_account@,
            recipient_index: self.recipient_index,
            filter: self.filter@,
            selected: selection_view(self.selected@),
            select_all: self.select_all,
        }
    }
}

/// What "max" puts in for a token that the account does not hold.
pub const NO_BALANCE: &'static str = "0";

/// The balances that an account holds, by resource address; none for an unknown account.
pub open spec fn held_by(data: AppData, account: Seq<char>) -> Map<Seq<char>, FungibleAsset> {
    if data.fungibles@.contains_key(account) {
        data.fungibles@[account]@
    } else {
        Map::empty()
    }
}

/// The selection after "max": each chosen token gets the account's whole balance, or 0 where
/// the account holds none of it.
pub open spec fn spec_set_max(
    selected: Map<Seq<char>, (Seq<char>, Seq<char>)>,
    held: Map<Seq<char>, FungibleAsset>,
) -> Map<Seq<char>, (Seq<char>, Seq<char>)> {
    Map::new(
        |k: Seq<char>| selected.contains_key(k),
        |k: Seq<char>|
            (
                selected[k].0,
                if held.contains_key(k) {
                    held[k].amount@
                } else {
                    NO_BALANCE@
                },
            ),
    )
}

/// The selection after "select all": every token that the account holds and whose resource is
/// known joins, under the resource's address, with its symbol and no amount; tokens already
/// chosen stay as they are.
pub open spec fn spec_select_all(
    selected: Map<Seq<char>, (Seq<char>, Seq<char>)>,
    held: Seq<(ResourceAddress, FungibleAsset)>,
    resources: Map<Seq<char>, Resource>,
) -> Map<Seq<char>, (Seq<char>, Seq<char>)>
    decreases held.len(),
{
    if held.len() == 0 {
        selected
    } else {
        let before = spec_select_all(selected, held.drop_last(), resources);
        let k = held.last().1.resource_address@;
        if !before.contains_key(k) && resources.contains_key(k) {
            before.insert(resources[k].address@, (resources[k].symbol@, Seq::empty()))
        } else {
            before
        }
    }
}

/// The selection after an amount is typed for a token: a number sets it (choosing the token
/// if need be), an empty text unchooses the token, anything else changes nothing.
pub open spec fn spec_change_asset_amount(
    selected: Map<Seq<char>, (Seq<char>, Seq<char>)>,
    asset: Seq<char>,
    symbol: Seq<char>,
    input: AmountInput,
) -> Map<Seq<char>, (Seq<char>, Seq<char>)> {
    if input.is_number {
        if selected.contains_key(asset) {
            selected.insert(asset, (selected[asset].0, input.text@))
        } else {
            selected.insert(asset, (symbol, input.text@))
        }
    } else if input.text@.len() == 0 {
        selected.remove(asset)
    } else {
        selected
    }
}

/// A recipient's assets after the chosen ones were added: a token already listed takes the
/// new amount and keeps its symbol, a new one joins with both.
pub open spec fn spec_merge_selection(
    listed: Map<Seq<char>, (Seq<char>, Seq<char>)>,
    chosen: Seq<(ResourceAddress, (String, String))>,
) -> Map<Seq<char>, (Seq<char>, Seq<char>)>
    decreases chosen.len(),
{
    if chosen.len() == 0 {
        listed
    } else {
        let before = spec_merge_selection(listed, chosen.drop_last());
        let k = chosen.last().0@;
        if before.contains_key(k) {
            before.insert(k, (before[k].0, chosen.last().1.1@))
        } else {
            before.insert(k, (chosen.last().1.0@, chosen.last().1.1@))
        }
    }
}

/// The balances of an account in the order they are held; none for an unknown account.
pub open spec fn held_entries(data: AppData, account: Seq<char>) -> Seq<
    (ResourceAddress, FungibleAsset),
> {
    if data.fungibles@.contains_key(account) {
        data.fungibles@[account].entries()
    } else {
        Seq::empty()
    }
}

/// What a message of the screen does to it (the wallet data and the recipients are only read
/// by "max" and "select all", and written by "submit").
pub open spec fn spec_update(a: AddAssetsView, m: Message, data: AppData) -> AddAssetsView {
    match m {
        Message::SetTab(tab) => AddAssetsView { tab, ..a },
        Message::FilterInput(input) => AddAssetsView { filter: lowercase_ascii(input@), ..a },
        Message::InputAmount(asset, symbol, input) => AddAssetsView {
            selected: spec_change_asset_amount(a.selected, asset@, symbol@, input),
            ..a
        },
        Message::InputMaxSelected => AddAssetsView {
            selected: spec_set_max(a.selected, held_by(data, a.from_account)),
            ..a
        },
        Message::SelectAllTokens => AddAssetsView {
            selected: spec_select_all(a.selected, held_entries(data, a.from_account), data.resources@),
            select_all: true,
            ..a
        },
        Message::SelectAsset(asset, symbol) => AddAssetsView {
            selected: a.selected.insert(asset@, (symbol@, Seq::empty())),
            ..a
        },
        Message::UnselectAllTokens => AddAssetsView {
            selected: Map::empty(),
            select_all: false,
            ..a
        },
        Message::UnselectAsset(asset) => AddAssetsView {
            selected: a.selected.remove(asset@),
            select_all: false,
            ..a
        },
        Message::SubmitAssets => AddAssetsView { selected: Map::empty(), ..a },
    }
}

/// What the caller is left to do after a message of the screen.
#[derive(PartialEq, Eq, Structural, Clone, Copy, Debug)]
pub enum AddAssetsAction {
    Idle,
    /// The chosen assets went to the recipient: show the transfer again.
    ShowTransaction,
}

impl AddAssets {
    pub fn new(from_account: AccountAddress, recipient_index: usize, selected: Selection) -> (r: Self)
        ensures
            r@ == (AddAssetsView {
                tab: AssetTab::Tokens,
                from_account: from_account@,
                recipient_index,
                filter: Seq::empty(),
                selected: selection_view(selected@),
                select_all: false,
            }),
    {
        AddAssets {
            tab: AssetTab::Tokens,
            from_account,
            recipient_index,
            filter: String::new(),
            selected,
            select_all: false,
        }
    }

    pub fn update_filter(&mut self, input: String)
        ensures
            final(self)@ == (AddAssetsView { filter: lowercase_ascii(input@), ..old(self)@ }),
    {
        self.filter = ascii_lowercase(input.as_str());
    }

    pub fn set_max_amount_for_selected(&mut self, data: &AppData)
        ensures
            final(self)@ == (AddAssetsView {
                selected: spec_set_max(old(self)@.selected, held_by(*data, old(self)@.from_account)),
                ..old(self)@
            }),
    {
        let ghost initial = self@;
        let ghost held = held_by(*data, self.from_account@);
        let ghost orig = self.selected.entries();
        self.selected.check_keys_unique();
        let holdings = data.fungibles.get(&self.from_account);
        let n = self.selected.len();
        let mut i: usize = 0;
        while i < n
            invariant
                n == orig.len(),
                i <= n,
                keys_unique(orig),
                initial.selected == selection_view(entries_map(orig)),
                self.selected.entries().len() == n,
                forall|j: int| 0 <= j < n ==> #[trigger] self.selected.entries()[j].0 == orig[j].0,
                forall|j: int| i <= j < n ==> #[trigger] self.selected.entries()[j].1 == orig[j].1,
                forall|j: int|
                    0 <= j < i ==> (#[trigger] self.selected.entries()[j]).1.0 == orig[j].1.0
                        && self.selected.entries()[j].1.1@ == (if held.contains_key(orig[j].0.text()) {
                        held[orig[j].0.text()].amount@
                    } else {
                        NO_BALANCE@
                    }),
                self.tab == initial.tab,
                self.from_account@ == initial.from_account,
                self.recipient_index == initial.recipient_index,
                self.filter@ == initial.filter,
                self.select_all == initial.select_all,
                holdings matches Some(h) ==> h@ == held,
                holdings is None ==> held == Map::<Seq<char>, FungibleAsset>::empty(),
            decreases n - i,
        {
            let (key, value) = self.selected.entry_at(i);
            let symbol = value.0.clone();
            let amount = match holdings {
                Some(h) => match h.get(key) {
                    Some(asset) => asset.amount.clone(),
                    None => String::from_str(NO_BALANCE),
                },
                None => String::from_str(NO_BALANCE),
            };
            let ghost before = self.selected.entries();
            self.selected.set_value_at(i, (symbol, amount));
            assert forall|j: int| 0 <= j < n implies #[trigger] self.selected.entries()[j].0
                == orig[j].0 by {
                assert(self.selected.entries()[j].0 == before[j].0);
            }
            i += 1;
        }
        proof {
            let fin = self.selected.entries();
            lemma_same_keys(orig, fin);
            let target = spec_set_max(initial.selected, held);
            assert(selection_view(self.selected@).dom() =~= target.dom());
            assert forall|k: Seq<char>| #[trigger] selection_view(self.selected@).contains_key(k)
                implies selection_view(self.selected@)[k] == target[k] by {
                let j = choose|j: int| 0 <= j < fin.len() && fin[j].0.text() == k;
                assert(fin[j].0.text() == orig[j].0.text());
            }
            assert(selection_view(self.selected@) =~= target);
        }
    }
}

impl AddAssets {
    pub fn select_all_tokens(&mut self, data: &AppData)
        ensures
            final(self)@ == (AddAssetsView {
                selected: spec_select_all(
                    old(self)@.selected,
                    held_entries(*data, old(self)@.from_account),
                    data.resources@,
                ),
                select_all: true,
                ..old(self)@
            }),
    {
        let ghost initial = self@;
        match data.fungibles.get(&self.from_account) {
            Some(held) => {
                let ghost es = held.entries();
                let n = held.len();
                let mut i: usize = 0;
                while i < n
                    invariant
                        n == es.len(),
                        es == held.entries(),
                        i <= n,
                        self@ == (AddAssetsView {
                            selected: spec_select_all(
                                initial.selected,
                                es.take(i as int),
                                data.resources@,
                            ),
                            ..initial
                        }),
                    decreases n - i,
                {
                    let (_key, fungible) = held.entry_at(i);
                    let ghost before = self.selected@;
                    if !self.selected.contains_key(&fungible.resource_address) {
                        match data.resources.get(&fungible.resource_address) {
                            Some(resource) => {
                                self.selected.insert(
                                    resource.address.clone(),
                                    (resource.symbol.clone(), String::new()),
                                );
                                assert(selection_view(self.selected@) =~= selection_view(
                                    before,
                                ).insert(
                                    resource.address@,
                                    (resource.symbol@, Seq::<char>::empty()),
                                ));
                            },
                            None => {},
                        }
                    }
                    assert(es.take(i + 1).drop_last() =~= es.take(i as int));
                    i += 1;
                }
                assert(es.take(n as int) =~= es);
            },
            None => {},
        }
        self.select_all = true;
    }

    pub fn change_asset_amount(&mut self, asset: ResourceAddress, symbol: String, input: AmountInput)
        ensures
            final(self)@ == (AddAssetsView {
                selected: spec_change_asset_amount(old(self)@.selected, asset@, symbol@, input),
                ..old(self)@
            }),
    {
        let ghost before = self.selected@;
        let ghost typed = input;
        if input.is_number {
            match self.selected.index_of(&asset) {
                Some(i) => {
                    let kept = self.selected.entry_at(i).1.0.clone();
                    self.selected.set_value_at(i, (kept, input.text));
                    assert(selection_view(self.selected@) =~= selection_view(before).insert(
                        asset@,
                        (selection_view(before)[asset@].0, typed.text@),
                    ));
                },
                None => {
                    self.selected.insert(asset, (symbol, input.text));
                    assert(selection_view(self.selected@) =~= selection_view(before).insert(
                        asset@,
                        (symbol@, typed.text@),
                    ));
                },
            }
        } else if input.text.as_str().is_empty() {
            self.selected.remove(&asset);
            assert(selection_view(self.selected@) =~= selection_view(before).remove(asset@));
        }
    }

    pub fn add_selected_asset(&mut self, asset: ResourceAddress, symbol: String)
        ensures
            final(self)@ == (AddAssetsView {
                selected: old(self)@.selected.insert(asset@, (symbol@, Seq::empty())),
                ..old(self)@
            }),
    {
        let ghost before = self.selected@;
        let ghost a = asset@;
        let ghost sym = symbol@;
        self.selected.insert(asset, (symbol, String::new()));
        assert(selection_view(self.selected@) =~= selection_view(before).insert(
            a,
            (sym, Seq::<char>::empty()),
        ));
    }

    pub fn remove_selected_asset(&mut self, asset: ResourceAddress)
        ensures
            final(self)@ == (AddAssetsView {
                selected: old(self)@.selected.remove(asset@),
                select_all: false,
                ..old(self)@
            }),
    {
        let ghost before = self.selected@;
        self.select_all = false;
        self.selected.remove(&asset);
        assert(selection_view(self.selected@) =~= selection_view(before).remove(asset@));
    }

    pub fn unselect_all(&mut self)
        ensures
            final(self)@ == (AddAssetsView { selected: Map::empty(), select_all: false, ..old(self)@ }),
    {
        self.selected.clear();
        self.select_all = false;
        assert(selection_view(self.selected@) =~= Map::empty());
    }

    /// Hands the chosen assets to the recipient: a token already listed for it takes the new
    /// amount, a new one is added; the choice is emptied.
    pub fn submit_selected_assets(&mut self, recipients: &mut Vec<Recipient>) -> (action: AddAssetsAction)
        requires
            old(self).recipient_index < old(recipients)@.len(),
        ensures
            action == AddAssetsAction::ShowTransaction,
            final(self)@ == (AddAssetsView { selected: Map::empty(), ..old(self)@ }),
            final(recipients)@.len() == old(recipients)@.len(),
            forall|i: int|
                0 <= i < old(recipients)@.len() && i != old(self).recipient_index
                    ==> #[trigger] final(recipients)@[i] == old(recipients)@[i],
            final(recipients)@[old(self).recipient_index as int].address == old(
                recipients,
            )@[old(self).recipient_index as int].address,
            selection_view(final(recipients)@[old(self).recipient_index as int].resources@)
                == spec_merge_selection(
                selection_view(old(recipients)@[old(self).recipient_index as int].resources@),
                old(self).selected.entries(),
            ),
    {
        let ghost chosen = self.selected.entries();
        let mut taken: Selection = KeyedList::new();
        std::mem::swap(&mut taken, &mut self.selected);
        assert(selection_view(self.selected@) =~= Map::empty());
        let mut es = taken.into_entries();
        let total = es.len();
        let index = self.recipient_index;
        let mut r = recipients.remove(index);
        let ghost start = selection_view(r.resources@);
        let mut i: usize = 0;
        while es.len() > 0
            invariant
                chosen.len() == total,
                i <= total,
                es@ == chosen.skip(i as int),
                r.address == old(recipients)@[index as int].address,
                selection_view(r.resources@) == spec_merge_selection(start, chosen.take(i as int)),
            decreases es@.len(),
        {
            assert(es@.len() == total - i);
            let (key, (symbol, amount)) = es.remove(0);
            let ghost before = selection_view(r.resources@);
            let ghost k = key@;
            let ghost am = amount@;
            let ghost sy = symbol@;
            match r.resources.index_of(&key) {
                Some(j) => {
                    let kept = r.resources.entry_at(j).1.0.clone();
                    r.resources.set_value_at(j, (kept, amount));
                    assert(selection_view(r.resources@) =~= before.insert(k, (before[k].0, am)));
                },
                None => {
                    r.resources.insert(key, (symbol, amount));
                    assert(selection_view(r.resources@) =~= before.insert(k, (sy, am)));
                },
            }
            proof {
                assert(chosen.take(i + 1).drop_last() =~= chosen.take(i as int));
                assert(chosen[i as int].0@ == k);
            }
            i += 1;
            assert(es@ =~= chosen.skip(i as int));
        }
        assert(chosen.take(total as int) =~= chosen);
        recipients.insert(index, r);
        AddAssetsAction::ShowTransaction
    }

    /// Handles a message of the screen.
    pub fn update(&mut self, message: Message, recipients: &mut Vec<Recipient>, data: &AppData) -> (action: AddAssetsAction)
        requires
            message is SubmitAssets ==> old(self).recipient_index < old(recipients)@.len(),
        ensures
            final(self)@ == spec_update(old(self)@, message, *data),
            action == (if message is SubmitAssets {
                AddAssetsAction::ShowTransaction
            } else {
                AddAssetsAction::Idle
            }),
            !(message is SubmitAssets) ==> final(recipients)@ == old(recipients)@,
            message is SubmitAssets ==> final(recipients)@.len() == old(recipients)@.len()
                && final(recipients)@[old(self).recipient_index as int].address == old(
                recipients,
            )@[old(self).recipient_index as int].address && selection_view(
                final(recipients)@[old(self).recipient_index as int].resources@,
            ) == spec_merge_selection(
                selection_view(old(recipients)@[old(self).recipient_index as int].resources@),
                old(self).selected.entries(),
            ) && forall|i: int|
                0 <= i < old(recipients)@.len() && i != old(self).recipient_index
                    ==> #[trigger] final(recipients)@[i] == old(recipients)@[i],
    {
        match message {
            Message::SetTab(tab) => {
                self.tab = tab;
                AddAssetsAction::Idle
            },
            Message::FilterInput(input) => {
                self.update_filter(input);
                AddAssetsAction::Idle
            },
            Message::InputAmount(asset, symbol, input) => {
                self.change_asset_amount(asset, symbol, input);
                AddAssetsAction::Idle
            },
            Message::InputMaxSelected => {
                self.set_max_amount_for_selected(data);
                AddAssetsAction::Idle
            },
            Message::SelectAllTokens => {
                self.select_all_tokens(data);
                AddAssetsAction::Idle
            },
            Message::SelectAsset(asset, symbol) => {
                self.add_selected_asset(asset, symbol);
                AddAssetsAction::Idle
            },
            Message::UnselectAllTokens => {
                self.unselect_all();
                AddAssetsAction::Idle
            },
            Message::UnselectAsset(asset) => {
                self.remove_selected_asset(asset);
                AddAssetsAction::Idle
            },
            Message::SubmitAssets => self.submit_selected_assets(recipients),
        }
    }
}

/// A token that the asset screen lists, as its row shows it: the resource, the balance held,
/// whether it is ticked, and the amount typed for it.
pub struct TokenRow {
    pub resource: Resource,
    pub balance: String,
    pub checked: bool,
    pub amount: String,
}

pub open spec fn rows_view(rows: Seq<TokenRow>) -> Seq<(Resource, Seq<char>, bool, Seq<char>)> {
    rows.map_values(|r: TokenRow| (r.resource, r.balance@, r.checked, r.amount@))
}

/// Whether a resource matches the search text: its name or symbol in lower case, or its
/// address, holds the text.
pub open spec fn token_matches(r: Resource, filter: Seq<char>) -> bool {
    ||| occurs_in(filter, lowercase_ascii(r.name@))
    ||| occurs_in(filter, lowercase_ascii(r.symbol@))
    ||| occurs_in(filter, r.address@)
}

/// The rows of the token list: the balances held, in order, whose resource is known and
/// matches the search; a chosen token is ticked with its amount, another follows "select all"
/// with no amount.
pub open spec fn token_rows_of(
    held: Seq<(ResourceAddress, FungibleAsset)>,
    resources: Map<Seq<char>, Resource>,
    a: AddAssetsView,
) -> Seq<(Resource, Seq<char>, bool, Seq<char>)>
    decreases held.len(),
{
    if held.len() == 0 {
        Seq::empty()
    } else {
        let rest = token_rows_of(held.drop_last(), resources, a);
        let f = held.last().1;
        let k = f.resource_address@;
        if resources.contains_key(k) && token_matches(resources[k], a.filter) {
            let (checked, amount) = if a.selected.contains_key(k) {
                (true, a.selected[k].1)
            } else {
                (a.select_all, Seq::<char>::empty())
            };
            rest.push((resources[k], f.amount@, checked, amount))
        } else {
            rest
        }
    }
}

impl AddAssets {
    /// The token list of the screen.
    pub fn token_rows(&self, data: &AppData) -> (r: Vec<TokenRow>)
        ensures
            rows_view(r@) == token_rows_of(held_entries(*data, self@.from_account), data.resources@, self@),
    {
        let mut rows: Vec<TokenRow> = Vec::new();
        match data.fungibles.get(&self.from_account) {
            Some(held) => {
                let ghost es = held.entries();
                let n = held.len();
                let mut i: usize = 0;
                while i < n
                    invariant
                        n == es.len(),
                        es == held.entries(),
                        i <= n,
                        rows_view(rows@) == token_rows_of(es.take(i as int), data.resources@, self@),
                    decreases n - i,
                {
                    let (_key, fungible) = held.entry_at(i);
                    proof {
                        assert(es.take(i + 1).drop_last() =~= es.take(i as int));
                    }
                    match data.resources.get(&fungible.resource_address) {
                        Some(resource) => {
                            let name = ascii_lowercase(resource.name.as_str());
                            let symbol = ascii_lowercase(resource.symbol.as_str());
                            let shown = contains_text(name.as_str(), self.filter.as_str())
                                || contains_text(symbol.as_str(), self.filter.as_str())
                                || contains_text(resource.address.as_str(), self.filter.as_str());
                            if shown {
                                let (checked, amount) = match self.selected.get(
                                    &fungible.resource_address,
                                ) {
                                    Some(chosen) => (true, chosen.1.clone()),
                                    None => (self.select_all, String::new()),
                                };
                                let row = TokenRow {
                                    resource: resource.clone(),
                                    balance: fungible.amount.clone(),
                                    checked,
                                    amount,
                                };
                                let ghost v = (row.resource, row.balance@, row.checked, row.amount@);
                                rows.push(row);
                                assert(rows_view(rows@) =~= rows_view(rows@.drop_last()).push(v));
                            }
                        },
                        None => {},
                    }
                    i += 1;
                }
                assert(es.take(n as int) =~= es);
            },
            None => {},
        }
        rows
    }

    /// Whether the choice can be submitted: something is chosen and no ticked row's amount
    /// exceeds its balance (`exceeds` says so for each row, as the decimals compare).
    pub fn submit_enabled(&self, rows: &Vec<TokenRow>, exceeds: &Vec<bool>) -> (r: bool)
        requires
            exceeds@.len() == rows@.len(),
        ensures
            r == (self.selected.entries().len() > 0 && forall|i: int|
                0 <= i < rows@.len() ==> (#[trigger] rows@[i]).checked ==> !exceeds@[i]),
    {
        if self.selected.is_empty() {
            return false;
        }
        let n = rows.len();
        let mut i: usize = 0;
        while i < n
            invariant
                n == rows@.len(),
                exceeds@.len() == n,
                i <= n,
                forall|j: int| 0 <= j < i ==> (#[trigger] rows@[j]).checked ==> !exceeds@[j],
            decreases n - i,
        {
            if rows[i].checked && exceeds[i] {
                return false;
            }
            i += 1;
        }
        true
    }
}

/// Whether one of the chosen assets is for a token.
pub open spec fn is_chosen(chosen: Seq<(ResourceAddress, (String, String))>, k: Seq<char>) -> bool {
    exists|i: int| 0 <= i < chosen.len() && (#[trigger] chosen[i]).0@ == k
}

/// What submitting the chosen assets makes of a recipient's list: every chosen token is listed
/// with the amount chosen for it, keeping the symbol it was listed with or else taking the
/// chosen one; every other listed token stays as it was; nothing else is listed.
pub proof fn law_submitted_amounts_are_kept(
    listed: Map<Seq<char>, (Seq<char>, Seq<char>)>,
    chosen: Seq<(ResourceAddress, (String, String))>,
)
    requires
        keys_unique(chosen),
    ensures
        forall|i: int|
            0 <= i < chosen.len() ==> {
                let k = (#[trigger] chosen[i]).0@;
                &&& spec_merge_selection(listed, chosen).contains_key(k)
                &&& spec_merge_selection(listed, chosen)[k] == (
                    if listed.contains_key(k) {
                        listed[k].0
                    } else {
                        chosen[i].1.0@
                    },
                    chosen[i].1.1@,
                )
            },
        forall|k: Seq<char>|
            !is_chosen(chosen, k) ==> (#[trigger] spec_merge_selection(listed, chosen).contains_key(k)
                == listed.contains_key(k)) && (listed.contains_key(k) ==> spec_merge_selection(
                listed,
                chosen,
            )[k] == listed[k]),
    decreases chosen.len(),
{
    if chosen.len() > 0 {
        let n = chosen.len() - 1;
        let dl = chosen.drop_last();
        assert(keys_unique(dl)) by {
            assert forall|i: int, j: int|
                0 <= i < dl.len() && 0 <= j < dl.len() && i != j implies #[trigger] dl[i].0.text()
                != #[trigger] dl[j].0.text() by {
                assert(dl[i] == chosen[i] && dl[j] == chosen[j]);
            }
        }
        law_submitted_amounts_are_kept(listed, dl);
        let k = chosen[n].0@;
        let before = spec_merge_selection(listed, dl);
        assert(chosen.drop_last() == dl && chosen.last() == chosen[n]);
        assert(spec_merge_selection(listed, chosen) == if before.contains_key(k) {
            before.insert(k, (before[k].0, chosen[n].1.1@))
        } else {
            before.insert(k, (chosen[n].1.0@, chosen[n].1.1@))
        });
        assert(!is_chosen(dl, k)) by {
            if is_chosen(dl, k) {
                let i = choose|i: int| 0 <= i < dl.len() && (#[trigger] dl[i]).0@ == k;
                assert(dl[i] == chosen[i]);
                assert(chosen[i].0.text() != chosen[n].0.text());
            }
        }
        assert forall|i: int| 0 <= i < chosen.len() implies {
            let k2 = (#[trigger] chosen[i]).0@;
            &&& spec_merge_selection(listed, chosen).contains_key(k2)
            &&& spec_merge_selection(listed, chosen)[k2] == (
                if listed.contains_key(k2) {
                    listed[k2].0
                } else {
                    chosen[i].1.0@
                },
                chosen[i].1.1@,
            )
        } by {
            if i < n {
                assert(dl[i] == chosen[i]);
                assert(chosen[i].0.text() != chosen[n].0.text());
            } else {
                assert(before.contains_key(k) == listed.contains_key(k));
            }
        }
        assert forall|k2: Seq<char>| !is_chosen(chosen, k2) implies (
        #[trigger] spec_merge_selection(listed, chosen).contains_key(k2) == listed.contains_key(k2))
            && (listed.contains_key(k2) ==> spec_merge_selection(listed, chosen)[k2] == listed[k2]) by {
            assert(chosen[n].0@ != k2);
            assert(!is_chosen(dl, k2)) by {
                if is_chosen(dl, k2) {
                    let i = choose|i: int| 0 <= i < dl.len() && (#[trigger] dl[i]).0@ == k2;
                    assert(dl[i] == chosen[i]);
                }
            }
            assert(before.contains_key(k2) == listed.contains_key(k2));
        }
    }
}

/// A table of resources in which each resource is found under its own address.
pub open spec fn keyed_by_address(resources: Map<Seq<char>, Resource>) -> bool {
    forall|k: Seq<char>| resources.contains_key(k) ==> (#[trigger] resources[k]).address@ == k
}

/// Whether the account holds a balance of a known resource under an address.
pub open spec fn holds_known(
    held: Seq<(ResourceAddress, FungibleAsset)>,
    resources: Map<Seq<char>, Resource>,
    k: Seq<char>,
) -> bool {
    resources.contains_key(k) && exists|j: int|
        0 <= j < held.len() && (#[trigger] held[j]).1.resource_address@ == k
}

/// "Select all" keeps every token already chosen as it was.
pub proof fn lemma_select_all_keeps_chosen(
    selected: Map<Seq<char>, (Seq<char>, Seq<char>)>,
    held: Seq<(ResourceAddress, FungibleAsset)>,
    resources: Map<Seq<char>, Resource>,
    k: Seq<char>,
)
    requires
        keyed_by_address(resources),
        selected.contains_key(k),
    ensures
        spec_select_all(selected, held, resources).contains_key(k),
        spec_select_all(selected, held, resources)[k] == selected[k],
    decreases held.len(),
{
    if held.len() > 0 {
        lemma_select_all_keeps_chosen(selected, held.drop_last(), resources, k);
        let k2 = held.last().1.resource_address@;
        if resources.contains_key(k2) {
            assert(resources[k2].address@ == k2);
        }
    }
}

/// After "select all" a token is chosen exactly when it was chosen before or the account holds
/// a known resource under its address; one that was not chosen before comes with the
/// resource's symbol and no amount.
pub proof fn lemma_select_all_chooses_held(
    selected: Map<Seq<char>, (Seq<char>, Seq<char>)>,
    held: Seq<(ResourceAddress, FungibleAsset)>,
    resources: Map<Seq<char>, Resource>,
    k: Seq<char>,
)
    requires
        keyed_by_address(resources),
    ensures
        spec_select_all(selected, held, resources).contains_key(k) == (selected.contains_key(k)
            || holds_known(held, resources, k)),
        !selected.contains_key(k) && holds_known(held, resources, k) ==> spec_select_all(
            selected,
            held,
            resources,
        )[k] == (resources[k].symbol@, Seq::<char>::empty()),
    decreases held.len(),
{
    if held.len() > 0 {
        let n = held.len() - 1;
        let dl = held.drop_last();
        lemma_select_all_chooses_held(selected, dl, resources, k);
        let k2 = held[n].1.resource_address@;
        assert(held.last() == held[n]);
        if resources.contains_key(k2) {
            assert(resources[k2].address@ == k2);
        }
        if holds_known(held, resources, k) && !holds_known(dl, resources, k) {
            let j = choose|j: int| 0 <= j < held.len() && (#[trigger] held[j]).1.resource_address@ == k;
            if j < n {
                assert(dl[j] == held[j]);
            }
            assert(k2 == k);
        }
        if holds_known(dl, resources, k) {
            let j = choose|j: int| 0 <= j < dl.len() && (#[trigger] dl[j]).1.resource_address@ == k;
            assert(dl[j] == held[j]);
            assert(holds_known(held, resources, k));
        }
    }
}

/// What "select all" makes of the choice: every token already chosen stays as it was; every
/// token the account holds whose resource is known is chosen, a newly chosen one with the
/// resource's symbol and no amount; nothing else is chosen.
pub proof fn law_select_all_chooses_every_held_token(
    selected: Map<Seq<char>, (Seq<char>, Seq<char>)>,
    held: Seq<(ResourceAddress, FungibleAsset)>,
    resources: Map<Seq<char>, Resource>,
)
    requires
        keyed_by_address(resources),
    ensures
        forall|k: Seq<char>|
            selected.contains_key(k) ==> (#[trigger] spec_select_all(selected, held, resources)[k])
                == selected[k],
        forall|k: Seq<char>|
            #[trigger] spec_select_all(selected, held, resources).contains_key(k) == (
            selected.contains_key(k) || holds_known(held, resources, k)),
        forall|k: Seq<char>|
            !selected.contains_key(k) && holds_known(held, resources, k) ==> (
            #[trigger] spec_select_all(selected, held, resources)[k]) == (
                resources[k].symbol@,
                Seq::<char>::empty(),
            ),
{
    assert forall|k: Seq<char>| selected.contains_key(k) implies (#[trigger] spec_select_all(
        selected,
        held,
        resources,
    )[k]) == selected[k] by {
        lemma_select_all_keeps_chosen(selected, held, resources, k);
    }
    assert forall|k: Seq<char>|
        #[trigger] spec_select_all(selected, held, resources).contains_key(k) == (
        selected.contains_key(k) || holds_known(held, resources, k)) by {
        lemma_select_all_chooses_held(selected, held, resources, k);
    }
    assert forall|k: Seq<char>|
        !selected.contains_key(k) && holds_known(held, resources, k) implies (
        #[trigger] spec_select_all(selected, held, resources)[k]) == (
            resources[k].symbol@,
            Seq::<char>::empty(),
        ) by {
        lemma_select_all_chooses_held(selected, held, resources, k);
    }
}

/// Whether a balance gets a row in the token list: its resource is known and matches the
/// search.
pub open spec fn listed_token(
    resources: Map<Seq<char>, Resource>,
    filter: Seq<char>,
) -> spec_fn((ResourceAddress, FungibleAsset)) -> bool {
    |e: (ResourceAddress, FungibleAsset)|
        resources.contains_key(e.1.resource_address@) && token_matches(
            resources[e.1.resource_address@],
            filter,
        )
}

/// The token list shows exactly the balances whose resource is known and matches the search,
/// in the order they are held (the `r`-th such balance is the `r`-th row), each with its
/// resource and held amount; a chosen token is ticked with the amount chosen for it, any
/// other is ticked exactly when "select all" is on, with no amount.
pub proof fn law_token_rows_follow_balances(
    held: Seq<(ResourceAddress, FungibleAsset)>,
    resources: Map<Seq<char>, Resource>,
    a: AddAssetsView,
)
    ensures
        token_rows_of(held, resources, a).len() == count_before(
            held,
            listed_token(resources, a.filter),
            held.len() as int,
        ),
        forall|j: int|
            0 <= j < held.len() && listed_token(resources, a.filter)(#[trigger] held[j]) ==> {
                let k = held[j].1.resource_address@;
                token_rows_of(held, resources, a)[count_before(
                    held,
                    listed_token(resources, a.filter),
                    j,
                ) as int] == (
                    resources[k],
                    held[j].1.amount@,
                    if a.selected.contains_key(k) {
                        true
                    } else {
                        a.select_all
                    },
                    if a.selected.contains_key(k) {
                        a.selected[k].1
                    } else {
                        Seq::<char>::empty()
                    },
                )
            },
    decreases held.len(),
{
    if held.len() > 0 {
        let p = listed_token(resources, a.filter);
        let n = held.len() - 1;
        let dl = held.drop_last();
        law_token_rows_follow_balances(dl, resources, a);
        lemma_count_before_drop_last(held, p);
        assert(held.last() == held[n]);
        assert(count_before(held, p, held.len() as int) == count_before(held, p, n) + if p(held[n]) {
            1nat
        } else {
            0nat
        });
        assert forall|j: int| 0 <= j < held.len() && p(#[trigger] held[j]) implies {
            let k = held[j].1.resource_address@;
            token_rows_of(held, resources, a)[count_before(held, p, j) as int] == (
                resources[k],
                held[j].1.amount@,
                if a.selected.contains_key(k) {
                    true
                } else {
                    a.select_all
                },
                if a.selected.contains_key(k) {
                    a.selected[k].1
                } else {
                    Seq::<char>::empty()
                },
            )
        } by {
            if j < n {
                assert(dl[j] == held[j]);
                assert(count_before(dl, p, j) == count_before(held, p, j));
                lemma_count_before_grows(held, p, j, n);
            }
        }
    }
}

} // verus!
