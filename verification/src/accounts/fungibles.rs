//! An account's tokens, with one of them possibly opened.
use vstd::prelude::*;

use crate::model::{AccountAddress, FungibleAsset, ResourceAddress};

use super::fungible::{FungibleView, Icon};

verus! {

pub enum Message {
    Back,
    SelectFungible(FungibleAsset),
    InsertFungibleImage(Vec<u8>),
}

pub struct Fungibles {
    pub account_addr: AccountAddress,
    pub selected: Option<FungibleView>,
}

/// What the caller is left to do after a message of the token list.
pub enum FungiblesAction {
    Idle,
    /// Look the resource's icon up in the icon cache and send it back with
    /// `InsertFungibleImage`.
    LoadIcon(ResourceAddress),
}

/// The token list after a message, and what is left to the caller.
pub open spec fn fungibles_updated(
    before: Fungibles,
    after: Fungibles,
    message: Message,
    action: FungiblesAction,
) -> bool {
    &&& after.account_addr == before.account_addr
    &&& match message {
        Message::Back => after.selected == before.selected && action is Idle,
        Message::SelectFungible(f) => {
            &&& after.selected == Some(FungibleView { fungible: f, image: Icon::Absent })
            &&& action == FungiblesAction::LoadIcon(f.resource_address)
        },
        Message::InsertFungibleImage(bytes) => {
            &&& action is Idle
            &&& match before.selected {
                Some(v) => after.selected == Some(FungibleView { image: Icon::Image(bytes), ..v }),
                None => after.selected is None,
            }
        },
    }
}

impl Fungibles {
    pub fn new(account_addr: AccountAddress) -> (r: Self)
        ensures
            r.account_addr == account_addr,
            r.selected is None,
    {
        Fungibles { account_addr, selected: None }
    }

    /// Opens a token (without an icon until it is found), or shows the icon of the open one.
    pub fn update(&mut self, message: Message) -> (action: FungiblesAction)
        ensures
            fungibles_updated(*old(self), *final(self), message, action),
    {
        match message {
            Message::Back => FungiblesAction::Idle,
            Message::SelectFungible(fungible) => {
                let address = fungible.resource_address.clone();
                self.selected = Some(FungibleView::new(fungible, Icon::Absent));
                FungiblesAction::LoadIcon(address)
            },
            Message::InsertFungibleImage(bytes) => {
                match self.selected.take() {
                    Some(mut view) => {
                        view.image = Icon::Image(bytes);
                        self.selected = Some(view);
                    },
                    None => {},
                }
                FungiblesAction::Idle
            },
        }
    }
}

} // verus!
