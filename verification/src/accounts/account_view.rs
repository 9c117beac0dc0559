//! One account: its name and address, and its tokens or its NFT collections.
use vstd::prelude::*;

use crate::model::{Account, AccountAddress, FungibleAsset};

use super::fungibles::{self, fungibles_updated, Fungibles, FungiblesAction};

verus! {

pub enum Message {
    FungiblesView(AccountAddress),
    NonFungiblesView(AccountAddress),
    SelectFungible(FungibleAsset),
    SelectNonFungible { account_id: usize, non_fungible_id: usize },
    SelectPoolUnit { account_id: usize, poolunit_id: usize },
    FungiblesMessage(fungibles::Message),
}

/// Which assets of the account are shown.
pub enum AssetView {
    Tokens(Fungibles),
    NonFungibles,
}

/// An asset of an account, by its index.
pub enum Asset {
    Fungible(usize),
    NonFungible(usize),
}

pub struct AccountView {
    pub name: String,
    pub address: AccountAddress,
    pub view: AssetView,
}

/// The account view after a message, and what is left to the caller.
pub open spec fn account_view_updated(
    before: AccountView,
    after: AccountView,
    message: Message,
    action: FungiblesAction,
) -> bool {
    &&& after.name == before.name
    &&& after.address == before.address
    &&& match message {
        Message::FungiblesView(address) => {
            &&& after.view matches AssetView::Tokens(f) && f.account_addr == address
                && f.selected is None
            &&& action is Idle
        },
        Message::NonFungiblesView(_) => after.view is NonFungibles && action is Idle,
        Message::FungiblesMessage(m) => match before.view {
            AssetView::Tokens(f) => after.view matches AssetView::Tokens(g) && fungibles_updated(
                f,
                g,
                m,
                action,
            ),
            AssetView::NonFungibles => after.view is NonFungibles && action is Idle,
        },
        _ => after.view == before.view && action is Idle,
    }
}

impl AccountView {
    /// An account view showing its tokens; the account's balances are looked up when they are
    /// shown.
    pub fn new(name: String, address: AccountAddress, _fungible_assets: Vec<FungibleAsset>) -> (r: Self)
        ensures
            r.name == name,
            r.address == address,
            r.view matches AssetView::Tokens(f) && f.account_addr == address && f.selected is None,
    {
        let tokens = Fungibles::new(address.clone());
        AccountView { name, address, view: AssetView::Tokens(tokens) }
    }

    pub fn from_account(account: &Account) -> (r: Self)
        ensures
            r.name == account.name,
            r.address == account.address,
            r.view matches AssetView::Tokens(f) && f.account_addr == account.address
                && f.selected is None,
    {
        AccountView {
            name: account.name.clone(),
            address: account.address.clone(),
            view: AssetView::Tokens(Fungibles::new(account.address.clone())),
        }
    }

    /// Switches between tokens and NFT collections, or passes a message to the token list.
    pub fn update(&mut self, message: Message) -> (action: FungiblesAction)
        ensures
            account_view_updated(*old(self), *final(self), message, action),
    {
        match message {
            Message::FungiblesView(address) => {
                self.view = AssetView::Tokens(Fungibles::new(address));
                FungiblesAction::Idle
            },
            Message::NonFungiblesView(_) => {
                self.view = AssetView::NonFungibles;
                FungiblesAction::Idle
            },
            Message::FungiblesMessage(m) => {
                let mut taken = AssetView::NonFungibles;
                std::mem::swap(&mut taken, &mut self.view);
                match taken {
                    AssetView::Tokens(mut f) => {
                        let action = f.update(m);
                        self.view = AssetView::Tokens(f);
                        action
                    },
                    AssetView::NonFungibles => FungiblesAction::Idle,
                }
            },
            _ => FungiblesAction::Idle,
        }
    }
}

} // verus!
