//! The unlocked wallet's main screen: the active tab, the open dialog, and how messages reach
//! them.
use vstd::prelude::*;

use crate::accounts::accounts_view::{self, accounts_view_updated, AccountsView};
use crate::accounts::fungibles::FungiblesAction;
use crate::app_data::AppData;
use crate::keyed::KeyedList;
use crate::model::{Account, FungibleAsset, Persona, ResourceAddress};
use crate::overlays::overlay::{self, overlay_updated, Overlay, OverlayAction, SpawnOverlay};
use crate::personas::{self, personas_updated, PersonasAction, PersonasView, PersonasViewState};
use crate::transaction::create_transaction::{
    self, form_updated, fresh_form, update_allowed, CreateTransaction, TransactionAction,
};

verus! {

pub enum Message {
    SelectTab(TabId),
    AccountsViewMessage(accounts_view::Message),
    NewTransaction(Option<Account>),
    TransactionMessage(create_transaction::Message),
    SpawnOverlay(SpawnOverlay),
    CloseOverlay,
    OverlayMessage(overlay::Message),
    PersonasViewMessage(personas::Message),
}

pub enum ActiveTab {
    Accounts(AccountsView),
    Transfer(CreateTransaction),
    Personas(PersonasView),
}

#[derive(PartialEq, Eq, Structural, Clone, Copy, Debug)]
pub enum TabId {
    Accounts,
    Transfer,
    Personas,
}

pub struct AppView {
    pub notification: Option<String>,
    pub active_tab: ActiveTab,
    pub overlay: Option<Overlay>,
}

/// What the caller is left to do after a message of the main screen.
pub enum AppViewAction {
    Idle,
    /// Open a transfer from this account: find which of its balances read as decimals and
    /// call `new_transaction`.
    NewTransaction(Option<Account>),
    Accounts(FungiblesAction),
    Transfer(TransactionAction),
    Overlay(OverlayAction),
    Personas(PersonasAction),
}

/// The balances that a transfer from an account starts with: those that read as decimals,
/// by resource address, as their text.
pub open spec fn decimal_amounts(
    held: Seq<(ResourceAddress, FungibleAsset)>,
    is_decimal: Seq<bool>,
) -> Map<Seq<char>, String>
    decreases held.len(),
{
    if held.len() == 0 {
        Map::empty()
    } else {
        let m = decimal_amounts(held.drop_last(), is_decimal);
        if is_decimal[held.len() - 1] {
            m.insert(held.last().1.resource_address@, held.last().1.amount)
        } else {
            m
        }
    }
}

/// The balances a transfer from the given account starts with, if the wallet holds any for
/// it.
pub open spec fn starting_amounts(
    from_account: Option<Account>,
    data: AppData,
    is_decimal: Seq<bool>,
) -> Map<Seq<char>, String> {
    match from_account {
        Some(a) => if data.fungibles@.contains_key(a.address@) {
            decimal_amounts(data.fungibles@[a.address@].entries(), is_decimal)
        } else {
            Map::empty()
        },
        None => Map::empty(),
    }
}

/// The flags say, for each balance that the account holds, in order, whether it reads as a
/// decimal.
pub open spec fn flags_fit(from_account: Option<Account>, data: AppData, is_decimal: Seq<bool>) -> bool {
    match from_account {
        Some(a) => data.fungibles@.contains_key(a.address@) ==> is_decimal.len()
            == data.fungibles@[a.address@].entries().len(),
        None => true,
    }
}

/// A tab as it opens.
pub open spec fn opened_tab(tab: ActiveTab, id: TabId) -> bool {
    match id {
        TabId::Accounts => tab matches ActiveTab::Accounts(AccountsView::OverView(m)) && m@
            == Map::<Seq<char>, bool>::empty(),
        TabId::Transfer => tab matches ActiveTab::Transfer(t) && fresh_form(
            t,
            None,
            Map::empty(),
        ),
        TabId::Personas => tab matches ActiveTab::Personas(p) && p@ == (PersonasViewState {
            label: Seq::empty(),
            password: Seq::empty(),
            editing: None,
        }),
    }
}

/// A dialog as it opens.
pub open spec fn spawned(o: Overlay, request: SpawnOverlay) -> bool {
    match request {
        SpawnOverlay::AddAccount => o matches Overlay::AddAccount(a) && a@.view
            == crate::overlays::add_account::Screen::InputAccountName && a@.account_name.len()
            == 0 && a@.password.len() == 0 && a@.notification.len() == 0,
        SpawnOverlay::Receive(address) => o matches Overlay::Receive(v) && v.address == address
            && v.notification is Hidden,
    }
}

/// The active tab after a message for one tab: the tab takes it when it is the active one.
pub open spec fn tab_stepped(
    before: ActiveTab,
    after: ActiveTab,
    message: Message,
    data: AppData,
    personas: Map<Seq<char>, Persona>,
    action: AppViewAction,
) -> bool {
    match message {
        Message::AccountsViewMessage(m) => match before {
            ActiveTab::Accounts(v) => after matches ActiveTab::Accounts(w)
                && action matches AppViewAction::Accounts(fa) && accounts_view_updated(
                v,
                w,
                m,
                data,
                fa,
            ),
            _ => after == before && action is Idle,
        },
        Message::TransactionMessage(m) => match before {
            ActiveTab::Transfer(t) => after matches ActiveTab::Transfer(u) && form_updated(
                t,
                u,
                m,
                data,
            ) && action == AppViewAction::Transfer(
                if m is SubmitTransaction {
                    TransactionAction::Submit
                } else {
                    TransactionAction::Idle
                },
            ),
            _ => after == before && action is Idle,
        },
        Message::PersonasViewMessage(m) => match before {
            ActiveTab::Personas(p) => after matches ActiveTab::Personas(q)
                && action matches AppViewAction::Personas(pa) && personas_updated(
                p@,
                q@,
                m,
                personas,
                pa,
            ),
            _ => after == before && action is Idle,
        },
        _ => true,
    }
}

/// The main screen after a message, and what is left to the caller.
pub open spec fn app_view_updated(
    before: AppView,
    after: AppView,
    message: Message,
    data: AppData,
    personas: Map<Seq<char>, Persona>,
    action: AppViewAction,
) -> bool {
    &&& after.notification == before.notification
    &&& match message {
        Message::SelectTab(id) => {
            &&& opened_tab(after.active_tab, id)
            &&& after.overlay == before.overlay
            &&& action is Idle
        },
        Message::NewTransaction(from) => {
            &&& after.active_tab == before.active_tab
            &&& after.overlay == before.overlay
            &&& action == AppViewAction::NewTransaction(from)
        },
        Message::SpawnOverlay(request) => {
            &&& after.active_tab == before.active_tab
            &&& after.overlay matches Some(o) && spawned(o, request)
            &&& action is Idle
        },
        Message::CloseOverlay => {
            &&& after.active_tab == before.active_tab
            &&& after.overlay is None
            &&& action is Idle
        },
        Message::OverlayMessage(m) => {
            &&& after.active_tab == before.active_tab
            &&& match before.overlay {
                Some(o) => after.overlay matches Some(p) && action matches AppViewAction::Overlay(
                    oa,
                ) && overlay_updated(o, p, m, oa),
                None => after.overlay is None && action is Idle,
            }
        },
        _ => {
            &&& after.overlay == before.overlay
            &&& tab_stepped(before.active_tab, after.active_tab, message, data, personas, action)
        },
    }
}

/// The messages the main screen can take: a message of the transfer form must index its
/// recipients rightly while the form is open.
pub open spec fn app_view_update_allowed(v: AppView, message: Message) -> bool {
    match message {
        Message::TransactionMessage(m) => match v.active_tab {
            ActiveTab::Transfer(t) => update_allowed(t, m),
            _ => true,
        },
        _ => true,
    }
}

impl AppView {
    /// The accounts tab, with no dialog and no notification.
    pub fn new() -> (r: Self)
        ensures
            r.notification is None,
            opened_tab(r.active_tab, TabId::Accounts),
            r.overlay is None,
    {
        AppView { notification: None, active_tab: ActiveTab::Accounts(AccountsView::new()), overlay: None }
    }

    /// Opens a tab afresh.
    pub fn select_tab(&mut self, id: TabId)
        ensures
            final(self).notification == old(self).notification,
            final(self).overlay == old(self).overlay,
            opened_tab(final(self).active_tab, id),
    {
        match id {
            TabId::Accounts => {
                self.active_tab = ActiveTab::Accounts(AccountsView::new());
            },
            TabId::Transfer => {
                self.active_tab = ActiveTab::Transfer(CreateTransaction::new(None, None));
            },
            TabId::Personas => {
                self.active_tab = ActiveTab::Personas(PersonasView::new());
            },
        }
    }

    /// Opens the transfer tab from an account (or from none), starting with the account's
    /// balances that read as decimals: `is_decimal` says, for each balance that the wallet
    /// holds for the account, in order, whether it does.
    pub fn new_transaction(&mut self, from_account: Option<Account>, data: &AppData, is_decimal: &Vec<bool>)
        requires
            flags_fit(from_account, *data, is_decimal@),
        ensures
            final(self).notification == old(self).notification,
            final(self).overlay == old(self).overlay,
            final(self).active_tab matches ActiveTab::Transfer(t) && fresh_form(
                t,
                from_account,
                starting_amounts(from_account, *data, is_decimal@),
            ),
    {
        let amounts: Option<KeyedList<ResourceAddress, String>> = match &from_account {
            Some(account) => match data.fungibles.get(&account.address) {
                Some(held) => {
                    let mut m: KeyedList<ResourceAddress, String> = KeyedList::new();
                    let n = held.len();
                    let mut i: usize = 0;
                    while i < n
                        invariant
                            n == held.entries().len(),
                            is_decimal@.len() == n,
                            i <= n,
                            m@ == decimal_amounts(held.entries().take(i as int), is_decimal@),
                        decreases n - i,
                    {
                        let (_, f) = held.entry_at(i);
                        proof {
                            assert(held.entries().take(i + 1).drop_last() =~= held.entries().take(
                                i as int,
                            ));
                        }
                        if is_decimal[i] {
                            m.insert(f.resource_address.clone(), f.amount.clone());
                        }
                        i += 1;
                    }
                    assert(held.entries().take(n as int) =~= held.entries());
                    Some(m)
                },
                None => None,
            },
            None => None,
        };
        self.active_tab = ActiveTab::Transfer(CreateTransaction::new(from_account, amounts));
    }

    /// Handles a message of the main screen, given the wallet's data and personas.
    pub fn update(
        &mut self,
        message: Message,
        data: &AppData,
        personas: &KeyedList<String, Persona>,
    ) -> (action: AppViewAction)
        requires
            app_view_update_allowed(*old(self), message),
        ensures
            app_view_updated(*old(self), *final(self), message, *data, personas@, action),
    {
        match message {
            Message::SelectTab(id) => {
                self.select_tab(id);
                AppViewAction::Idle
            },
            Message::NewTransaction(from) => AppViewAction::NewTransaction(from),
            Message::SpawnOverlay(request) => {
                self.overlay = Some(Overlay::spawn(request));
                AppViewAction::Idle
            },
            Message::CloseOverlay => {
                self.overlay = None;
                AppViewAction::Idle
            },
            Message::OverlayMessage(m) => {
                match self.overlay.take() {
                    Some(mut o) => {
                        let action = o.update(m);
                        self.overlay = Some(o);
                        AppViewAction::Overlay(action)
                    },
                    None => AppViewAction::Idle,
                }
            },
            Message::AccountsViewMessage(m) => {
                let mut tab = ActiveTab::Accounts(AccountsView::new());
                std::mem::swap(&mut tab, &mut self.active_tab);
                match tab {
                    ActiveTab::Accounts(mut v) => {
                        let action = v.update(m, data);
                        self.active_tab = ActiveTab::Accounts(v);
                        AppViewAction::Accounts(action)
                    },
                    other => {
                        self.active_tab = other;
                        AppViewAction::Idle
                    },
                }
            },
            Message::TransactionMessage(m) => {
                let mut tab = ActiveTab::Accounts(AccountsView::new());
                std::mem::swap(&mut tab, &mut self.active_tab);
                match tab {
                    ActiveTab::Transfer(mut t) => {
                        let action = t.update(m, data);
                        self.active_tab = ActiveTab::Transfer(t);
                        AppViewAction::Transfer(action)
                    },
                    other => {
                        self.active_tab = other;
                        AppViewAction::Idle
                    },
                }
            },
            Message::PersonasViewMessage(m) => {
                let mut tab = ActiveTab::Accounts(AccountsView::new());
                std::mem::swap(&mut tab, &mut self.active_tab);
                match tab {
                    ActiveTab::Personas(mut p) => {
                        let action = p.update(m, personas);
                        self.active_tab = ActiveTab::Personas(p);
                        AppViewAction::Personas(action)
                    },
                    other => {
                        self.active_tab = other;
                        AppViewAction::Idle
                    },
                }
            },
        }
    }
}

/// Whether a later balance of the list that reads as a decimal has the same resource.
pub open spec fn decimal_repeated_later(
    held: Seq<(ResourceAddress, FungibleAsset)>,
    is_decimal: Seq<bool>,
    i: int,
) -> bool {
    exists|j: int|
        i < j < held.len() && is_decimal[j] && (#[trigger] held[j]).1.resource_address@
            == held[i].1.resource_address@
}

/// A transfer starts with exactly the balances that read as decimals, by resource address,
/// each with its amount as held (the last one, where a resource is held twice); a balance
/// that does not read as a decimal is left out.
pub proof fn law_starting_amounts_are_the_decimal_balances(
    held: Seq<(ResourceAddress, FungibleAsset)>,
    is_decimal: Seq<bool>,
)
    requires
        held.len() <= is_decimal.len(),
    ensures
        forall|k: Seq<char>|
            #[trigger] decimal_amounts(held, is_decimal).contains_key(k) <==> exists|i: int|
                0 <= i < held.len() && is_decimal[i] && (#[trigger] held[i]).1.resource_address@ == k,
        forall|i: int|
            0 <= i < held.len() && is_decimal[i] && !decimal_repeated_later(held, is_decimal, i)
                ==> decimal_amounts(held, is_decimal)[(#[trigger] held[i]).1.resource_address@]
                == held[i].1.amount,
    decreases held.len(),
{
    if held.len() > 0 {
        let n = held.len() - 1;
        let dl = held.drop_last();
        law_starting_amounts_are_the_decimal_balances(dl, is_decimal);
        assert(held.last() == held[n]);
        assert forall|k: Seq<char>|
            #[trigger] decimal_amounts(held, is_decimal).contains_key(k) <==> exists|i: int|
                0 <= i < held.len() && is_decimal[i] && (#[trigger] held[i]).1.resource_address@ == k by {
            if decimal_amounts(dl, is_decimal).contains_key(k) {
                let i = choose|i: int|
                    0 <= i < dl.len() && is_decimal[i] && (#[trigger] dl[i]).1.resource_address@ == k;
                assert(held[i] == dl[i]);
            }
            if exists|i: int| 0 <= i < held.len() && is_decimal[i] && (#[trigger] held[i]).1.resource_address@ == k {
                let i = choose|i: int|
                    0 <= i < held.len() && is_decimal[i] && (#[trigger] held[i]).1.resource_address@ == k;
                if i < n {
                    assert(dl[i] == held[i]);
                }
            }
        }
        assert forall|i: int|
            0 <= i < held.len() && is_decimal[i] && !decimal_repeated_later(held, is_decimal, i)
                implies decimal_amounts(held, is_decimal)[(#[trigger] held[i]).1.resource_address@]
                == held[i].1.amount by {
            if i < n {
                assert(dl[i] == held[i]);
                assert(!(is_decimal[n] && held[n].1.resource_address@ == held[i].1.resource_address@));
                assert(!decimal_repeated_later(dl, is_decimal, i)) by {
                    if decimal_repeated_later(dl, is_decimal, i) {
                        let j = choose|j: int|
                            i < j < dl.len() && is_decimal[j] && (#[trigger] dl[j]).1.resource_address@
                                == dl[i].1.resource_address@;
                        assert(dl[j] == held[j]);
                    }
                }
            }
        }
    }
}

} // verus!
