//! The main screen driven by messages that act on its tabs: the accounts tab and the transfer
//! tab with its plain message field, and the open dialog.
use vstd::prelude::*;

use crate::accounts::accounts_message::{accounts_message_allowed, accounts_processed, AccountsViewMessage};
use crate::accounts::accounts_view::AccountsView;
use crate::accounts::fungibles::FungiblesAction;
use crate::app_data::AppData;
use crate::keyed::KeyedList;
use crate::model::{Account, ResourceAddress};
use crate::overlays::overlay::{overlay_message_processed, Overlay, OverlayAction, OverlayMessage};
use crate::app_view::{decimal_amounts, flags_fit, starting_amounts};
use crate::transaction::transaction_message::{process_allowed, processed, TransactionMessage};
use crate::transaction::transaction_view::TransactionView;

verus! {

#[derive(PartialEq, Eq, Structural, Clone, Copy, Debug)]
pub enum TabChoice {
    Accounts,
    Transfer,
}

pub enum Tab {
    Accounts(AccountsView),
    Transfer(TransactionView),
}

pub struct TabsView {
    pub active_tab: Tab,
    pub overlay: Option<Overlay>,
}

pub enum AppViewMessage {
    SelectTab(TabChoice),
    AccountsOverview,
    AccountsViewMessage(AccountsViewMessage),
    /// Open a transfer from an account, with `is_decimal` saying for each balance that the
    /// wallet holds for it, in order, whether it reads as a decimal.
    NewTransaction(Option<Account>, Vec<bool>),
    TransferMessage(TransactionMessage),
    SpawnOverlay(Overlay),
    CloseOverlay,
    OverlayMessage(OverlayMessage),
}

/// What the caller is left to do after a message of the main screen.
pub enum TabsAction {
    Idle,
    Accounts(FungiblesAction),
    Overlay(OverlayAction),
}

/// A transfer tab as it opens from an account: one empty recipient, the account's balances
/// that read as decimals, an empty message.
pub open spec fn fresh_transfer(v: TransactionView, from: Option<Account>, amounts: Map<Seq<char>, String>) -> bool {
    &&& v.from_account == from
    &&& v.resource_amounts@ == amounts
    &&& v.recipients@.len() == 1
    &&& v.recipients@[0].address is None
    &&& v.recipients@[0].resources@ == Map::<Seq<char>, (String, String)>::empty()
    &&& v.message@ == Seq::<char>::empty()
    &&& v.screen is Transaction
}

/// The messages the screen can take: a tab's messages come while the tab is shown, and take
/// what that tab's messages ask.
pub open spec fn tabs_message_allowed(v: TabsView, m: AppViewMessage, data: AppData) -> bool {
    match m {
        AppViewMessage::AccountsViewMessage(a) => v.active_tab matches Tab::Accounts(t)
            && accounts_message_allowed(t, a, data),
        AppViewMessage::TransferMessage(t) => v.active_tab matches Tab::Transfer(x) && process_allowed(
            x,
            t,
        ),
        AppViewMessage::NewTransaction(from, flags) => flags_fit(from, data, flags@),
        _ => true,
    }
}

impl TabsView {
    /// The accounts tab, with no dialog.
    pub fn new() -> (r: Self)
        ensures
            r.active_tab matches Tab::Accounts(AccountsView::OverView(m)) && m@ == Map::<
                Seq<char>,
                bool,
            >::empty(),
            r.overlay is None,
    {
        TabsView { active_tab: Tab::Accounts(AccountsView::new()), overlay: None }
    }

    /// Opens a tab afresh.
    pub fn select_tab(&mut self, id: TabChoice)
        ensures
            final(self).overlay == old(self).overlay,
            match id {
                TabChoice::Accounts => final(self).active_tab matches Tab::Accounts(
                    AccountsView::OverView(m),
                ) && m@ == Map::<Seq<char>, bool>::empty(),
                TabChoice::Transfer => final(self).active_tab matches Tab::Transfer(v)
                    && fresh_transfer(v, None, Map::empty()),
            },
    {
        match id {
            TabChoice::Accounts => {
                self.active_tab = Tab::Accounts(AccountsView::new());
            },
            TabChoice::Transfer => {
                self.active_tab = Tab::Transfer(TransactionView::new(None, None));
            },
        }
    }

    /// Opens the transfer tab from an account, starting with its balances that read as
    /// decimals.
    pub fn new_transaction(&mut self, from_account: Option<Account>, data: &AppData, is_decimal: &Vec<bool>)
        requires
            flags_fit(from_account, *data, is_decimal@),
        ensures
            final(self).overlay == old(self).overlay,
            final(self).active_tab matches Tab::Transfer(v) && fresh_transfer(
                v,
                from_account,
                starting_amounts(from_account, *data, is_decimal@),
            ),
    {
        let amounts: Option<KeyedList<ResourceAddress, String>> = match &from_account {
            Some(account) => match data.fungibles.get(&account.address) {
                Some(held) => {
                    let mut m: KeyedList<ResourceAddress, String> = KeyedList::new();
                    let n = held.len();
                    let mut i: usize = 0;
                    while i < n
                        invariant
                            n == held.entries().len(),
                            is_decimal@.len() == n,
                            i <= n,
                            m@ == decimal_amounts(held.entries().take(i as int), is_decimal@),
                        decreases n - i,
                    {
                        let (_, f) = held.entry_at(i);
                        proof {
                            assert(held.entries().take(i + 1).drop_last() =~= held.entries().take(
                                i as int,
                            ));
                        }
                        if is_decimal[i] {
                            m.insert(f.resource_address.clone(), f.amount.clone());
                        }
                        i += 1;
                    }
                    assert(held.entries().take(n as int) =~= held.entries());
                    Some(m)
                },
                None => None,
            },
            None => None,
        };
        self.active_tab = Tab::Transfer(TransactionView::new(from_account, amounts));
    }
}

impl AppViewMessage {
    /// Applies a message to the main screen.
    pub fn process(self, view: &mut TabsView, data: &AppData) -> (action: TabsAction)
        requires
            tabs_message_allowed(*old(view), self, *data),
        ensures
            match self {
                AppViewMessage::SelectTab(id) => {
                    &&& final(view).overlay == old(view).overlay
                    &&& action is Idle
                    &&& match id {
                        TabChoice::Accounts => final(view).active_tab matches Tab::Accounts(
                            AccountsView::OverView(m),
                        ) && m@ == Map::<Seq<char>, bool>::empty(),
                        TabChoice::Transfer => final(view).active_tab matches Tab::Transfer(v)
                            && fresh_transfer(v, None, Map::empty()),
                    }
                },
                AppViewMessage::AccountsOverview => {
                    &&& final(view).overlay == old(view).overlay
                    &&& action is Idle
                    &&& final(view).active_tab matches Tab::Accounts(AccountsView::OverView(m))
                    &&& m@ == Map::<Seq<char>, bool>::empty()
                },
                AppViewMessage::NewTransaction(from, flags) => {
                    &&& final(view).overlay == old(view).overlay
                    &&& action is Idle
                    &&& final(view).active_tab matches Tab::Transfer(v)
                    &&& fresh_transfer(v, from, starting_amounts(from, *data, flags@))
                },
                AppViewMessage::TransferMessage(t) => {
                    &&& final(view).overlay == old(view).overlay
                    &&& action is Idle
                    &&& final(view).active_tab matches Tab::Transfer(w)
                    &&& processed(old(view).active_tab->Transfer_0, w, t, *data)
                },
                AppViewMessage::AccountsViewMessage(a) => {
                    &&& final(view).overlay == old(view).overlay
                    &&& final(view).active_tab matches Tab::Accounts(t)
                    &&& action matches TabsAction::Accounts(fa)
                    &&& accounts_processed(old(view).active_tab->Accounts_0, t, a, *data, fa)
                },
                AppViewMessage::SpawnOverlay(o) => {
                    &&& final(view).overlay == Some(o)
                    &&& final(view).active_tab == old(view).active_tab
                    &&& action is Idle
                },
                AppViewMessage::CloseOverlay => {
                    &&& final(view).overlay is None
                    &&& final(view).active_tab == old(view).active_tab
                    &&& action is Idle
                },
                AppViewMessage::OverlayMessage(m) => {
                    &&& final(view).active_tab == old(view).active_tab
                    &&& action matches TabsAction::Overlay(oa)
                    &&& overlay_message_processed(old(view).overlay, final(view).overlay, m, oa)
                },
            },
    {
        match self {
            AppViewMessage::SelectTab(id) => {
                view.select_tab(id);
                TabsAction::Idle
            },
            AppViewMessage::AccountsOverview => {
                view.active_tab = Tab::Accounts(AccountsView::new());
                TabsAction::Idle
            },
            AppViewMessage::NewTransaction(from, flags) => {
                view.new_transaction(from, data, &flags);
                TabsAction::Idle
            },
            AppViewMessage::AccountsViewMessage(m) => {
                let mut tab = Tab::Accounts(AccountsView::new());
                std::mem::swap(&mut tab, &mut view.active_tab);
                match tab {
                    Tab::Accounts(mut t) => {
                        let action = m.process(&mut t, data);
                        view.active_tab = Tab::Accounts(t);
                        TabsAction::Accounts(action)
                    },
                    other => {
                        view.active_tab = other;
                        TabsAction::Idle
                    },
                }
            },
            AppViewMessage::TransferMessage(m) => {
                let mut tab = Tab::Accounts(AccountsView::new());
                std::mem::swap(&mut tab, &mut view.active_tab);
                match tab {
                    Tab::Transfer(mut t) => {
                        m.process(&mut t, data);
                        view.active_tab = Tab::Transfer(t);
                    },
                    other => {
                        view.active_tab = other;
                    },
                }
                TabsAction::Idle
            },
            AppViewMessage::SpawnOverlay(o) => {
                view.overlay = Some(o);
                TabsAction::Idle
            },
            AppViewMessage::CloseOverlay => {
                view.overlay = None;
                TabsAction::Idle
            },
            AppViewMessage::OverlayMessage(m) => TabsAction::Overlay(m.update(&mut view.overlay)),
        }
    }
}

} // verus!
