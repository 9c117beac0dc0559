//! The accounts tab: the list of accounts, where each can be expanded, or one account opened.
use vstd::prelude::*;

use crate::app_data::AppData;
use crate::keyed::KeyedList;
use crate::model::{Account, AccountAddress};

use super::account_view::{self, account_view_updated, AccountView, AssetView};
use super::fungibles::FungiblesAction;

verus! {

pub enum Message {
    Overview,
    NewAccount,
    SelectAccount(AccountAddress),
    /// Expand or collapse the account with this address.
    ToggleExpand(AccountAddress),
    AccountViewMessage(account_view::Message),
}

pub enum AccountsView {
    /// The list, with whether each account is expanded.
    OverView(KeyedList<AccountAddress, bool>),
    Account(AccountView),
}

/// Whether the account with the given address is expanded; an account never toggled is not.
pub open spec fn expanded(m: Map<Seq<char>, bool>, address: Seq<char>) -> bool {
    m.contains_key(address) && m[address]
}

/// The expansion flags after one account is toggled: a known flag flips, a new one is set.
pub open spec fn toggled(m: Map<Seq<char>, bool>, address: Seq<char>) -> Map<Seq<char>, bool> {
    if m.contains_key(address) {
        m.insert(address, !m[address])
    } else {
        m.insert(address, true)
    }
}

/// The tab shows the given account, with its tokens and none of them opened.
pub open spec fn shows_account(tab: AccountsView, account: Account) -> bool {
    &&& tab matches AccountsView::Account(v)
    &&& v.name == account.name
    &&& v.address == account.address
    &&& v.view matches AssetView::Tokens(f)
    &&& f.account_addr == account.address
    &&& f.selected is None
}

/// The tab after an account is toggled: the list's flags toggle, an opened account stays.
pub open spec fn toggle_result(before: AccountsView, after: AccountsView, address: Seq<char>) -> bool {
    match before {
        AccountsView::OverView(m) => after matches AccountsView::OverView(n) && n@ == toggled(
            m@,
            address,
        ),
        AccountsView::Account(_) => after == before,
    }
}

/// The tab after an account is chosen: it opens if the wallet has it.
pub open spec fn select_result(
    before: AccountsView,
    after: AccountsView,
    address: Seq<char>,
    data: AppData,
) -> bool {
    if data.accounts@.contains_key(address) {
        shows_account(after, data.accounts@[address])
    } else {
        after == before
    }
}

/// The accounts tab after a message, and what is left to the caller.
pub open spec fn accounts_view_updated(
    before: AccountsView,
    after: AccountsView,
    message: Message,
    data: AppData,
    action: FungiblesAction,
) -> bool {
    match message {
        Message::SelectAccount(address) => {
            &&& action is Idle
            &&& select_result(before, after, address@, data)
        },
        Message::ToggleExpand(address) => {
            &&& action is Idle
            &&& toggle_result(before, after, address@)
        },
        Message::AccountViewMessage(m) => match before {
            AccountsView::Account(v) => after matches AccountsView::Account(w)
                && account_view_updated(v, w, m, action),
            AccountsView::OverView(_) => after == before && action is Idle,
        },
        _ => after == before && action is Idle,
    }
}

impl AccountsView {
    /// The list, with no account expanded.
    pub fn new() -> (r: Self)
        ensures
            r matches AccountsView::OverView(m) && m@ == Map::<Seq<char>, bool>::empty(),
    {
        AccountsView::OverView(KeyedList::new())
    }

    /// Opens the account with the given address, if the wallet has it.
    pub fn select_account(&mut self, address: AccountAddress, data: &AppData)
        ensures
            select_result(*old(self), *final(self), address@, *data),
    {
        match data.accounts.get(&address) {
            Some(account) => {
                *self = AccountsView::Account(AccountView::from_account(account));
            },
            None => {},
        }
    }

    /// Expands or collapses an account of the list.
    pub fn toggle_expand(&mut self, address: AccountAddress)
        ensures
            toggle_result(*old(self), *final(self), address@),
    {
        let ghost key = address@;
        let mut taken = AccountsView::OverView(KeyedList::new());
        std::mem::swap(&mut taken, self);
        match taken {
            AccountsView::OverView(mut m) => {
                match m.index_of(&address) {
                    Some(i) => {
                        let flag = *m.entry_at(i).1;
                        m.set_value_at(i, !flag);
                    },
                    None => {
                        m.insert(address, true);
                    },
                }
                assert(m@ =~= toggled(old(self)->OverView_0@, key));
                *self = AccountsView::OverView(m);
            },
            other => {
                *self = other;
            },
        }
    }

    /// Handles a message of the accounts tab.
    pub fn update(&mut self, message: Message, data: &AppData) -> (action: FungiblesAction)
        ensures
            accounts_view_updated(*old(self), *final(self), message, *data, action),
    {
        match message {
            Message::SelectAccount(address) => {
                self.select_account(address, data);
                FungiblesAction::Idle
            },
            Message::ToggleExpand(address) => {
                self.toggle_expand(address);
                FungiblesAction::Idle
            },
            Message::AccountViewMessage(m) => {
                let mut taken = AccountsView::OverView(KeyedList::new());
                std::mem::swap(&mut taken, self);
                match taken {
                    AccountsView::Account(mut v) => {
                        let action = v.update(m);
                        *self = AccountsView::Account(v);
                        action
                    },
                    other => {
                        *self = other;
                        FungiblesAction::Idle
                    },
                }
            },
            _ => FungiblesAction::Idle,
        }
    }
}

/// Toggling an account flips whether it is expanded and leaves every other account as it was;
/// toggling it twice leaves every account as it was.
pub proof fn law_toggle_twice(m: Map<Seq<char>, bool>, address: Seq<char>, other: Seq<char>)
    ensures
        expanded(toggled(m, address), address) == !expanded(m, address),
        other != address ==> expanded(toggled(m, address), other) == expanded(m, other),
        expanded(toggled(toggled(m, address), address), other) == expanded(m, other),
{
}

} // verus!
