//! The wallet data that the interface shows: addresses, accounts, resources and assets.
use vstd::prelude::*;

use crate::keyed::TextKey;

verus! {

/// The address of an account on the ledger, held as its text.
pub struct AccountAddress(pub String);

/// The address of a resource (a token or an NFT collection), held as its text.
pub struct ResourceAddress(pub String);

impl View for AccountAddress {
    type V = Seq<char>;

    open spec fn view(&self) -> Seq<char> {
        self.0@
    }
}

impl View for ResourceAddress {
    type V = Seq<char>;

    open spec fn view(&self) -> Seq<char> {
        self.0@
    }
}

impl Clone for AccountAddress {
    fn clone(&self) -> (r: Self)
        ensures
            r == *self,
    {
        AccountAddress(self.0.clone())
    }
}

impl Clone for ResourceAddress {
    fn clone(&self) -> (r: Self)
        ensures
            r == *self,
    {
        ResourceAddress(self.0.clone())
    }
}

impl TextKey for AccountAddress {
    open spec fn text(&self) -> Seq<char> {
        self.0@
    }

    fn same_text(&self, other: &Self) -> (r: bool) {
        self.0 == other.0
    }

    fn duplicate(&self) -> (r: Self) {
        self.clone()
    }
}

impl TextKey for ResourceAddress {
    open spec fn text(&self) -> Seq<char> {
        self.0@
    }

    fn same_text(&self, other: &Self) -> (r: bool) {
        self.0 == other.0
    }

    fn duplicate(&self) -> (r: Self) {
        self.clone()
    }
}

impl AccountAddress {
    pub fn as_str(&self) -> (r: &str)
        ensures
            r@ == self@,
    {
        self.0.as_str()
    }
}

impl ResourceAddress {
    pub fn as_str(&self) -> (r: &str)
        ensures
            r@ == self@,
    {
        self.0.as_str()
    }
}

/// An account of the wallet.
pub struct Account {
    pub id: usize,
    pub name: String,
    pub address: AccountAddress,
    /// The index of the key that the account was derived with.
    pub derivation_index: u32,
    /// When the balances were last fetched from the ledger, in seconds.
    pub balances_last_updated: Option<i64>,
}

impl Clone for Account {
    fn clone(&self) -> (r: Self)
        ensures
            r == *self,
    {
        Account {
            id: self.id,
            name: self.name.clone(),
            address: self.address.clone(),
            derivation_index: self.derivation_index,
            balances_last_updated: self.balances_last_updated,
        }
    }
}

/// A resource as the ledger describes it.
pub struct Resource {
    pub address: ResourceAddress,
    pub name: String,
    pub symbol: String,
    pub description: String,
    pub current_supply: String,
    pub divisibility: Option<u8>,
}

impl Clone for Resource {
    fn clone(&self) -> (r: Self)
        ensures
            r == *self,
    {
        Resource {
            address: self.address.clone(),
            name: self.name.clone(),
            symbol: self.symbol.clone(),
            description: self.description.clone(),
            current_supply: self.current_supply.clone(),
            divisibility: self.divisibility,
        }
    }
}

/// A balance of a fungible resource held by an account; the amount is the ledger's decimal text.
pub struct FungibleAsset {
    pub resource_address: ResourceAddress,
    pub amount: String,
}

impl Clone for FungibleAsset {
    fn clone(&self) -> (r: Self)
        ensures
            r == *self,
    {
        FungibleAsset { resource_address: self.resource_address.clone(), amount: self.amount.clone() }
    }
}

/// One field of an NFT's data.
pub struct NfData {
    pub key: String,
    pub value: String,
}

impl Clone for NfData {
    fn clone(&self) -> (r: Self)
        ensures
            r == *self,
    {
        NfData { key: self.key.clone(), value: self.value.clone() }
    }
}

/// One NFT, by its local id, with its data fields.
pub struct Nft {
    pub id: String,
    pub nfdata: Vec<NfData>,
}

impl View for Nft {
    type V = (String, Seq<NfData>);

    open spec fn view(&self) -> (String, Seq<NfData>) {
        (self.id, self.nfdata@)
    }
}

pub fn clone_nfdata(v: &Vec<NfData>) -> (r: Vec<NfData>)
    ensures
        r@ == v@,
{
    let mut r: Vec<NfData> = Vec::new();
    let mut i: usize = 0;
    while i < v.len()
        invariant
            i <= v@.len(),
            r@ == v@.take(i as int),
        decreases v@.len() - i,
    {
        r.push(v[i].clone());
        assert(r@ =~= v@.take(i + 1));
        i += 1;
    }
    assert(v@.take(v@.len() as int) =~= v@);
    r
}

impl Clone for Nft {
    fn clone(&self) -> (r: Self)
        ensures
            r@ == self@,
    {
        Nft { id: self.id.clone(), nfdata: clone_nfdata(&self.nfdata) }
    }
}

pub open spec fn nfts_view(v: Seq<Nft>) -> Seq<(String, Seq<NfData>)> {
    v.map_values(|n: Nft| n@)
}

pub fn clone_nfts(v: &Vec<Nft>) -> (r: Vec<Nft>)
    ensures
        nfts_view(r@) == nfts_view(v@),
{
    let mut r: Vec<Nft> = Vec::new();
    let mut i: usize = 0;
    while i < v.len()
        invariant
            i <= v@.len(),
            r@.len() == i,
            forall|j: int| 0 <= j < i ==> #[trigger] r@[j]@ == v@[j]@,
        decreases v@.len() - i,
    {
        r.push(v[i].clone());
        i += 1;
    }
    assert(nfts_view(r@) =~= nfts_view(v@));
    r
}

/// The NFTs of one collection held by an account.
pub struct NonFungibleAsset {
    pub resource_address: ResourceAddress,
    pub nfids: Vec<Nft>,
}

impl View for NonFungibleAsset {
    type V = (ResourceAddress, Seq<(String, Seq<NfData>)>);

    open spec fn view(&self) -> (ResourceAddress, Seq<(String, Seq<NfData>)>) {
        (self.resource_address, nfts_view(self.nfids@))
    }
}

impl Clone for NonFungibleAsset {
    fn clone(&self) -> (r: Self)
        ensures
            r@ == self@,
    {
        NonFungibleAsset {
            resource_address: self.resource_address.clone(),
            nfids: clone_nfts(&self.nfids),
        }
    }
}

/// An error as the interface reports it: a fatal one ends the session, another is shown as a
/// notice; each with its text.
pub enum AppError {
    Fatal(String),
    NonFatal(String),
}

/// The order in which a persona's names are written.
#[derive(PartialEq, Eq, Structural, Clone, Copy, Debug)]
pub enum NameVariant {
    Western,
    Eastern,
}

impl NameVariant {
    /// The variant that a new name gets.
    pub fn default_variant() -> (r: Self)
        ensures
            r == NameVariant::Western,
    {
        NameVariant::Western
    }
}

pub struct PersonaName {
    pub given: String,
    pub family: String,
    pub variant: NameVariant,
}

/// What a persona shares with the applications it logs in to.
pub struct PersonaData {
    pub name: Option<PersonaName>,
    pub email_addresses: Vec<String>,
    pub phone_numbers: Vec<String>,
}

/// An identity of the wallet's user, with its label and the data it shares.
pub struct Persona {
    /// The order in which personas are listed.
    pub id: usize,
    pub identity_address: String,
    pub label: String,
    pub persona_data: PersonaData,
}

/// A transaction of an account as the history shows it.
pub struct Transaction {
    pub transaction_address: String,
    /// When it was committed, in seconds.
    pub timestamp: i64,
    /// How many balances it changed.
    pub balance_changes: usize,
}

/// A gateway of the ledger that the wallet talks to.
pub struct GatewayConfig {
    pub network: String,
    pub url: String,
}

} // verus!
