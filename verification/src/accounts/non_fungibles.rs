//! An account's NFT collections, with one of them possibly opened.
use vstd::prelude::*;

use crate::model::{AccountAddress, NonFungibleAsset, ResourceAddress};

use super::non_fungible::{self, image_table, images_view, nft_updated, pairs_view, pending_downloads, Icon, NonFungible};

verus! {

pub enum Message {
    Back,
    SelectNonFungible(NonFungibleAsset),
    InsertResourceIcon(Vec<u8>),
    ResourceIconNotFound,
    NonFungibleMessage(non_fungible::Message),
}

pub struct NonFungibles {
    pub account_addr: AccountAddress,
    pub selected: Option<NonFungible>,
}

/// What the caller is left to do after a message of the collection list.
pub enum NonFungiblesAction {
    Idle,
    /// Download these NFT images (id and address) and send each back with `ImageLoaded` or
    /// `FailedToGetImage`; look the collection's icon up in the icon cache and send it back
    /// with `ResourceIcon`.
    LoadImages { downloads: Vec<(String, String)>, resource: ResourceAddress },
}

impl NonFungibles {
    pub fn new(account_addr: AccountAddress) -> (r: Self)
        ensures
            r.account_addr == account_addr,
            r.selected is None,
    {
        NonFungibles { account_addr, selected: None }
    }

    /// Sets the icon of the open collection.
    fn set_icon(&mut self, icon: Icon)
        ensures
            final(self).account_addr == old(self).account_addr,
            match old(self).selected {
                Some(s) => final(self).selected == Some(NonFungible { image: icon, ..s }),
                None => final(self).selected is None,
            },
    {
        match self.selected.take() {
            Some(mut s) => {
                s.image = icon;
                self.selected = Some(s);
            },
            None => {},
        }
    }

    /// Opens a collection, sets its icon, or passes a message to the open collection.
    pub fn update(&mut self, message: Message) -> (action: NonFungiblesAction)
        ensures
            final(self).account_addr == old(self).account_addr,
            match message {
                Message::Back => final(self).selected == old(self).selected && action is Idle,
                Message::SelectNonFungible(asset) => {
                    &&& final(self).selected matches Some(s) && {
                        &&& s.non_fungible_asset == asset
                        &&& images_view(s.nft_images@) == image_table(asset.nfids@)
                        &&& s.image is Loading
                        &&& s.selected_nft is None
                        &&& action matches NonFungiblesAction::LoadImages { downloads, resource }
                            && pairs_view(downloads@) == pending_downloads(s.nft_images.entries())
                            && resource == asset.resource_address
                    }
                },
                Message::InsertResourceIcon(bytes) => {
                    &&& action is Idle
                    &&& match old(self).selected {
                        Some(s) => final(self).selected == Some(
                            NonFungible { image: Icon::Image(bytes), ..s },
                        ),
                        None => final(self).selected is None,
                    }
                },
                Message::ResourceIconNotFound => {
                    &&& action is Idle
                    &&& match old(self).selected {
                        Some(s) => final(self).selected == Some(
                            NonFungible { image: Icon::Absent, ..s },
                        ),
                        None => final(self).selected is None,
                    }
                },
                Message::NonFungibleMessage(m) => {
                    &&& action is Idle
                    &&& match old(self).selected {
                        Some(s) => final(self).selected matches Some(t) && nft_updated(s, t, m),
                        None => final(self).selected is None,
                    }
                },
            },
    {
        match message {
            Message::Back => NonFungiblesAction::Idle,
            Message::SelectNonFungible(asset) => {
                let resource = asset.resource_address.clone();
                let (selected, downloads) = NonFungible::new(asset);
                self.selected = Some(selected);
                NonFungiblesAction::LoadImages { downloads, resource }
            },
            Message::InsertResourceIcon(bytes) => {
                self.set_icon(Icon::Image(bytes));
                NonFungiblesAction::Idle
            },
            Message::ResourceIconNotFound => {
                self.set_icon(Icon::Absent);
                NonFungiblesAction::Idle
            },
            Message::NonFungibleMessage(m) => {
                match self.selected.take() {
                    Some(mut s) => {
                        s.update(m);
                        self.selected = Some(s);
                    },
                    None => {},
                }
                NonFungiblesAction::Idle
            },
        }
    }
}

} // verus!
