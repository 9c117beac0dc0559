//! One token of an account, with its icon.
use vstd::prelude::*;

use crate::keyed::KeyedList;
use crate::model::{FungibleAsset, Resource, ResourceAddress};

use super::non_fungible::{NO_DESCRIPTION, NO_NAME, UNKNOWN_SUPPLY};

verus! {

/// An icon as far as it is known.
pub enum Icon {
    /// There is none, or it could not be had.
    Absent,
    Loading,
    /// The image bytes.
    Image(Vec<u8>),
}

pub struct FungibleView {
    pub fungible: FungibleAsset,
    pub image: Icon,
}

impl FungibleView {
    pub fn new(fungible: FungibleAsset, image: Icon) -> (r: Self)
        ensures
            r.fungible == fungible,
            r.image == image,
    {
        FungibleView { fungible, image }
    }
}

/// The texts of a token's page where its resource is known.
pub struct TokenDetails {
    pub name: String,
    pub symbol: String,
    pub amount: String,
    pub description: String,
    pub current_supply: String,
    pub divisibility: u8,
}

/// The texts of a token's page, with a fallback for each text the resource would give.
pub struct TokenLabels {
    pub name: String,
    pub symbol: String,
    pub amount: String,
    pub description: String,
    pub current_supply: String,
}

impl FungibleView {
    /// The token's page: nothing when its resource is not known ("Token not found"); a
    /// resource without a divisibility shows 1.
    pub fn details(&self, resources: &KeyedList<ResourceAddress, Resource>) -> (r: Option<TokenDetails>)
        ensures
            match resources@.get(self.fungible.resource_address@) {
                Some(res) => r matches Some(d) && {
                    &&& d.name@ == res.name@
                    &&& d.symbol@ == res.symbol@
                    &&& d.amount@ == self.fungible.amount@
                    &&& d.description@ == res.description@
                    &&& d.current_supply@ == res.current_supply@
                    &&& d.divisibility == match res.divisibility {
                        Some(v) => v,
                        None => 1u8,
                    }
                },
                None => r is None,
            },
    {
        match resources.get(&self.fungible.resource_address) {
            Some(res) => Some(
                TokenDetails {
                    name: res.name.clone(),
                    symbol: res.symbol.clone(),
                    amount: self.fungible.amount.clone(),
                    description: res.description.clone(),
                    current_supply: res.current_supply.clone(),
                    divisibility: match res.divisibility {
                        Some(v) => v,
                        None => 1,
                    },
                },
            ),
            None => None,
        }
    }

    /// The token's page with fallbacks where the resource is not known: no name, no symbol,
    /// no description, an unknown supply.
    pub fn labels(&self, resources: &KeyedList<ResourceAddress, Resource>) -> (r: TokenLabels)
        ensures
            r.amount@ == self.fungible.amount@,
            match resources@.get(self.fungible.resource_address@) {
                Some(res) => {
                    &&& r.name@ == res.name@
                    &&& r.symbol@ == res.symbol@
                    &&& r.description@ == res.description@
                    &&& r.current_supply@ == res.current_supply@
                },
                None => {
                    &&& r.name@ == NO_NAME@
                    &&& r.symbol@ == Seq::<char>::empty()
                    &&& r.description@ == NO_DESCRIPTION@
                    &&& r.current_supply@ == UNKNOWN_SUPPLY@
                },
            },
    {
        let amount = self.fungible.amount.clone();
        match resources.get(&self.fungible.resource_address) {
            Some(res) => TokenLabels {
                name: res.name.clone(),
                symbol: res.symbol.clone(),
                amount,
                description: res.description.clone(),
                current_supply: res.current_supply.clone(),
            },
            None => TokenLabels {
                name: String::from_str(NO_NAME),
                symbol: String::new(),
                amount,
                description: String::from_str(NO_DESCRIPTION),
                current_supply: String::from_str(UNKNOWN_SUPPLY),
            },
        }
    }
}

} // verus!
