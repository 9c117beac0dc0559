//! The accounts tab driven by messages that act on the tab itself; each message expects the
//! screen it was sent from.
use vstd::prelude::*;

use crate::app_data::AppData;

use super::account_view::{self, account_view_updated, AssetView};
use super::accounts_view::{self, select_result, toggle_result, AccountsView};
use super::fungibles::{self, fungibles_updated, FungiblesAction};

verus! {

pub type AccountsViewMessage = accounts_view::Message;

pub type AccountViewMessage = account_view::Message;

pub type FungiblesMessage = fungibles::Message;

/// The token list of an opened account is shown.
pub open spec fn shows_tokens(tab: AccountsView) -> bool {
    tab matches AccountsView::Account(v) && v.view is Tokens
}

/// The screens a message of the token list can come from: opening a token needs the token
/// list on screen.
pub open spec fn fungibles_message_allowed(tab: AccountsView, m: FungiblesMessage) -> bool {
    m is SelectFungible ==> shows_tokens(tab)
}

/// The screens a message of an account can come from: switching between tokens and NFTs
/// needs an opened account.
pub open spec fn account_message_allowed(tab: AccountsView, m: AccountViewMessage) -> bool {
    match m {
        account_view::Message::FungiblesView(_) => tab is Account,
        account_view::Message::NonFungiblesView(_) => tab is Account,
        account_view::Message::FungiblesMessage(f) => fungibles_message_allowed(tab, f),
        _ => true,
    }
}

/// The messages the tab can take: an account that is opened must be in the wallet, and an
/// account is expanded from the list.
pub open spec fn accounts_message_allowed(
    tab: AccountsView,
    m: AccountsViewMessage,
    data: AppData,
) -> bool {
    match m {
        accounts_view::Message::SelectAccount(address) => data.accounts@.contains_key(address@),
        accounts_view::Message::ToggleExpand(_) => tab is OverView,
        accounts_view::Message::AccountViewMessage(a) => account_message_allowed(tab, a),
        _ => true,
    }
}

/// The tab after a message of the token list, and what is left to the caller.
pub open spec fn fungibles_processed(
    before: AccountsView,
    after: AccountsView,
    m: FungiblesMessage,
    action: FungiblesAction,
) -> bool {
    if shows_tokens(before) {
        &&& after matches AccountsView::Account(w)
        &&& before->Account_0.name == w.name
        &&& before->Account_0.address == w.address
        &&& w.view matches AssetView::Tokens(g)
        &&& fungibles_updated(before->Account_0.view->Tokens_0, g, m, action)
    } else {
        after == before && action is Idle
    }
}

impl FungiblesMessage {
    /// Applies a message of the token list to the tab.
    pub fn process(self, tab: &mut AccountsView) -> (action: FungiblesAction)
        requires
            fungibles_message_allowed(*old(tab), self),
        ensures
            fungibles_processed(*old(tab), *final(tab), self, action),
    {
        let mut taken = AccountsView::new();
        std::mem::swap(&mut taken, tab);
        match taken {
            AccountsView::Account(mut v) => {
                let mut view = AssetView::NonFungibles;
                std::mem::swap(&mut view, &mut v.view);
                match view {
                    AssetView::Tokens(mut f) => {
                        let action = f.update(self);
                        v.view = AssetView::Tokens(f);
                        *tab = AccountsView::Account(v);
                        action
                    },
                    other => {
                        v.view = other;
                        *tab = AccountsView::Account(v);
                        FungiblesAction::Idle
                    },
                }
            },
            other => {
                *tab = other;
                FungiblesAction::Idle
            },
        }
    }
}

impl AccountViewMessage {
    /// Applies a message of an account to the tab.
    pub fn process(self, tab: &mut AccountsView) -> (action: FungiblesAction)
        requires
            account_message_allowed(*old(tab), self),
        ensures
            match self {
                account_view::Message::FungiblesMessage(f) => fungibles_processed(
                    *old(tab),
                    *final(tab),
                    f,
                    action,
                ),
                _ => match *old(tab) {
                    AccountsView::Account(v) => (*final(tab)) matches AccountsView::Account(w)
                        && account_view_updated(v, w, self, action),
                    AccountsView::OverView(_) => *final(tab) == *old(tab) && action is Idle,
                },
            },
    {
        match self {
            account_view::Message::FungiblesMessage(f) => f.process(tab),
            m => {
                let mut taken = AccountsView::new();
                std::mem::swap(&mut taken, tab);
                match taken {
                    AccountsView::Account(mut v) => {
                        let action = v.update(m);
                        *tab = AccountsView::Account(v);
                        action
                    },
                    other => {
                        *tab = other;
                        FungiblesAction::Idle
                    },
                }
            },
        }
    }
}

/// The tab after a message of the accounts tab, and what is left to the caller.
pub open spec fn accounts_processed(
    before: AccountsView,
    after: AccountsView,
    m: AccountsViewMessage,
    data: AppData,
    action: FungiblesAction,
) -> bool {
    match m {
        accounts_view::Message::SelectAccount(address) => select_result(
            before,
            after,
            address@,
            data,
        ) && action is Idle,
        accounts_view::Message::ToggleExpand(address) => toggle_result(
            before,
            after,
            address@,
        ) && action is Idle,
        accounts_view::Message::AccountViewMessage(a) => match a {
            account_view::Message::FungiblesMessage(f) => fungibles_processed(
                before,
                after,
                f,
                action,
            ),
            _ => match before {
                AccountsView::Account(v) => after matches AccountsView::Account(w)
                    && account_view_updated(v, w, a, action),
                AccountsView::OverView(_) => after == before && action is Idle,
            },
        },
        _ => after == before && action is Idle,
    }
}

impl AccountsViewMessage {
    /// Applies a message of the accounts tab to the tab.
    pub fn process(self, tab: &mut AccountsView, data: &AppData) -> (action: FungiblesAction)
        requires
            accounts_message_allowed(*old(tab), self, *data),
        ensures
            accounts_processed(*old(tab), *final(tab), self, *data, action),
    {
        match self {
            accounts_view::Message::SelectAccount(address) => {
                tab.select_account(address, data);
                FungiblesAction::Idle
            },
            accounts_view::Message::ToggleExpand(address) => {
                tab.toggle_expand(address);
                FungiblesAction::Idle
            },
            accounts_view::Message::AccountViewMessage(a) => a.process(tab),
            _ => FungiblesAction::Idle,
        }
    }
}

} // verus!
