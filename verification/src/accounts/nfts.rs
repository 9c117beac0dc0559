//! An account's NFT collections, holding the opened collection.
use vstd::prelude::*;

use crate::model::AccountAddress;

use super::non_fungible::NonFungible;

verus! {

pub struct NonFungibles {
    account_address: AccountAddress,
    selected: Option<NonFungible>,
}

impl NonFungibles {
    pub closed spec fn account_address(self) -> AccountAddress {
        self.account_address
    }

    pub closed spec fn has_selection(self) -> bool {
        self.selected is Some
    }

    pub fn new(account_address: AccountAddress) -> (r: Self)
        ensures
            r.account_address() == account_address,
            !r.has_selection(),
    {
        NonFungibles { account_address, selected: None }
    }
}

} // verus!
