//! The wallet data held in memory while the interface runs, and how the updates that the
//! background sync and the disk deliver are merged into it.
use vstd::prelude::*;

use crate::keyed::{KeyedList, TextKey};
use crate::model::{
    Account, AccountAddress, FungibleAsset, NfData, NonFungibleAsset, Resource, ResourceAddress,
};

verus! {

/// Fungible balances of one account, by resource address.
pub type Fungibles = KeyedList<ResourceAddress, FungibleAsset>;

/// NFT collections of one account, by resource address.
pub type NonFungibles = KeyedList<ResourceAddress, NonFungibleAsset>;

pub struct AppData {
    pub accounts: KeyedList<AccountAddress, Account>,
    pub resources: KeyedList<ResourceAddress, Resource>,
    pub fungibles: KeyedList<AccountAddress, Fungibles>,
    pub non_fungibles: KeyedList<AccountAddress, NonFungibles>,
    /// Icon image bytes, by resource address.
    pub resource_icons: KeyedList<ResourceAddress, Vec<u8>>,
}

/// What an NFT collection is, as plain values.
pub type NonFungibleView = (ResourceAddress, Seq<(String, Seq<NfData>)>);

/// The wallet data as maps from address text.
pub struct AppDataView {
    pub accounts: Map<Seq<char>, Account>,
    pub resources: Map<Seq<char>, Resource>,
    pub fungibles: Map<Seq<char>, Map<Seq<char>, FungibleAsset>>,
    pub non_fungibles: Map<Seq<char>, Map<Seq<char>, NonFungibleView>>,
    pub resource_icons: Map<Seq<char>, Seq<u8>>,
}

pub open spec fn fungibles_view(m: Map<Seq<char>, Fungibles>) -> Map<
    Seq<char>,
    Map<Seq<char>, FungibleAsset>,
> {
    Map::new(|k: Seq<char>| m.contains_key(k), |k: Seq<char>| m[k]@)
}

pub open spec fn non_fungible_map_view(m: Map<Seq<char>, NonFungibleAsset>) -> Map<
    Seq<char>,
    NonFungibleView,
> {
    m.map_values(|a: NonFungibleAsset| a@)
}

pub open spec fn non_fungibles_view(m: Map<Seq<char>, NonFungibles>) -> Map<
    Seq<char>,
    Map<Seq<char>, NonFungibleView>,
> {
    Map::new(|k: Seq<char>| m.contains_key(k), |k: Seq<char>| non_fungible_map_view(m[k]@))
}

pub open spec fn icons_view(m: Map<Seq<char>, Vec<u8>>) -> Map<Seq<char>, Seq<u8>> {
    m.map_values(|v: Vec<u8>| v@)
}

impl View for AppData {
    type V = AppDataView;

    open spec fn view(&self) -> AppDataView {
        AppDataView {
            accounts: self.accounts@,
            resources: self.resources@,
            fungibles: fungibles_view(self.fungibles@),
            non_fungibles: non_fungibles_view(self.non_fungibles@),
            resource_icons: icons_view(self.resource_icons@),
        }
    }
}

/// What the sync learned of one account.
pub struct AccountUpdate {
    pub account: Account,
    pub fungibles: Vec<FungibleAsset>,
    pub non_fungibles: Vec<NonFungibleAsset>,
}

/// What one sync of all accounts learned.
pub struct AccountsUpdate {
    pub account_updates: Vec<AccountUpdate>,
    pub new_resources: KeyedList<ResourceAddress, Resource>,
    /// Where the icons of the new resources are downloaded from.
    pub icon_urls: KeyedList<ResourceAddress, String>,
}

/// The balances of an account after the assets of an update replaced or joined them, each
/// asset by its resource address.
pub open spec fn merge_fungibles(
    m: Map<Seq<char>, FungibleAsset>,
    assets: Seq<FungibleAsset>,
) -> Map<Seq<char>, FungibleAsset>
    decreases assets.len(),
{
    if assets.len() == 0 {
        m
    } else {
        merge_fungibles(m, assets.drop_last()).insert(
            assets.last().resource_address@,
            assets.last(),
        )
    }
}

pub open spec fn merge_non_fungibles(
    m: Map<Seq<char>, NonFungibleView>,
    assets: Seq<NonFungibleAsset>,
) -> Map<Seq<char>, NonFungibleView>
    decreases assets.len(),
{
    if assets.len() == 0 {
        m
    } else {
        merge_non_fungibles(m, assets.drop_last()).insert(
            assets.last().resource_address@,
            assets.last()@,
        )
    }
}

/// The value of a key, or a default where the key is absent.
pub open spec fn get_or<V>(m: Map<Seq<char>, V>, k: Seq<char>, d: V) -> V {
    if m.contains_key(k) {
        m[k]
    } else {
        d
    }
}

/// The account record after an update: a known account only takes the time of the new
/// balances, an unknown one is added as it came.
pub open spec fn merged_account(accounts: Map<Seq<char>, Account>, update: Account) -> Account {
    if accounts.contains_key(update.address@) {
        Account { balances_last_updated: update.balances_last_updated, ..accounts[update.address@] }
    } else {
        update
    }
}

/// The wallet data after the update of one account.
pub open spec fn apply_account_update(d: AppDataView, u: AccountUpdate) -> AppDataView {
    let k = u.account.address@;
    AppDataView {
        accounts: d.accounts.insert(k, merged_account(d.accounts, u.account)),
        fungibles: d.fungibles.insert(
            k,
            merge_fungibles(get_or(d.fungibles, k, Map::empty()), u.fungibles@),
        ),
        non_fungibles: d.non_fungibles.insert(
            k,
            merge_non_fungibles(get_or(d.non_fungibles, k, Map::empty()), u.non_fungibles@),
        ),
        ..d
    }
}

/// The wallet data after the updates of several accounts, in order.
pub open spec fn apply_account_updates(d: AppDataView, us: Seq<AccountUpdate>) -> AppDataView
    decreases us.len(),
{
    if us.len() == 0 {
        d
    } else {
        apply_account_update(apply_account_updates(d, us.drop_last()), us.last())
    }
}

/// Merging keeps every resource an account held and adds every resource of the update.
pub proof fn lemma_merge_fungibles_keys(m: Map<Seq<char>, FungibleAsset>, assets: Seq<FungibleAsset>)
    ensures
        forall|k: Seq<char>| m.contains_key(k) ==> #[trigger] merge_fungibles(m, assets).contains_key(k),
        forall|j: int|
            0 <= j < assets.len() ==> merge_fungibles(m, assets).contains_key(
                #[trigger] assets[j].resource_address@,
            ),
    decreases assets.len(),
{
    if assets.len() > 0 {
        lemma_merge_fungibles_keys(m, assets.drop_last());
        assert forall|k: Seq<char>| m.contains_key(k) implies #[trigger] merge_fungibles(
            m,
            assets,
        ).contains_key(k) by {
            assert(merge_fungibles(m, assets.drop_last()).contains_key(k));
        }
        assert forall|j: int| 0 <= j < assets.len() implies merge_fungibles(m, assets).contains_key(
            #[trigger] assets[j].resource_address@,
        ) by {
            if j < assets.len() - 1 {
                assert(assets.drop_last()[j] == assets[j]);
            }
        }
    }
}

/// After the updates of several accounts, every account that an update named is known, and
/// every token that an update listed for it is among its balances.
pub proof fn law_updated_accounts_are_held(d: AppDataView, us: Seq<AccountUpdate>)
    ensures
        forall|i: int|
            0 <= i < us.len() ==> apply_account_updates(d, us).accounts.contains_key(
                (#[trigger] us[i]).account.address@,
            ),
        forall|i: int, j: int|
            0 <= i < us.len() && 0 <= j < us[i].fungibles@.len() ==> apply_account_updates(
                d,
                us,
            ).fungibles[us[i].account.address@].contains_key(
                (#[trigger] us[i].fungibles@[j]).resource_address@,
            ),
        forall|i: int| 0 <= i < us.len() ==> apply_account_updates(d, us).fungibles.contains_key(
            (#[trigger] us[i]).account.address@,
        ),
    decreases us.len(),
{
    if us.len() > 0 {
        let prev = apply_account_updates(d, us.drop_last());
        law_updated_accounts_are_held(d, us.drop_last());
        let last = us.last();
        let k = last.account.address@;
        let start = get_or(prev.fungibles, k, Map::empty());
        lemma_merge_fungibles_keys(start, last.fungibles@);
        assert forall|i: int, j: int|
            0 <= i < us.len() && 0 <= j < us[i].fungibles@.len() implies apply_account_updates(
            d,
            us,
        ).fungibles[us[i].account.address@].contains_key(
            (#[trigger] us[i].fungibles@[j]).resource_address@,
        ) by {
            if i < us.len() - 1 {
                assert(us.drop_last()[i] == us[i]);
                if us[i].account.address@ == k {
                    assert(prev.fungibles.contains_key(k));
                    assert(start == prev.fungibles[k]);
                }
            }
        }
        assert forall|i: int| 0 <= i < us.len() implies apply_account_updates(d, us).accounts.contains_key(
            (#[trigger] us[i]).account.address@,
        ) by {
            if i < us.len() - 1 {
                assert(us.drop_last()[i] == us[i]);
            }
        }
        assert forall|i: int| 0 <= i < us.len() implies apply_account_updates(d, us).fungibles.contains_key(
            (#[trigger] us[i]).account.address@,
        ) by {
            if i < us.len() - 1 {
                assert(us.drop_last()[i] == us[i]);
            }
        }
    }
}

/// Account updates leave the resources and icons alone.
proof fn lemma_updates_keep_resources(d: AppDataView, us: Seq<AccountUpdate>)
    ensures
        apply_account_updates(d, us).resources == d.resources,
        apply_account_updates(d, us).resource_icons == d.resource_icons,
    decreases us.len(),
{
    if us.len() > 0 {
        lemma_updates_keep_resources(d, us.drop_last());
    }
}

impl AppData {
    pub fn new() -> (r: Self)
        ensures
            r@.accounts.dom().is_empty(),
            r@.resources.dom().is_empty(),
            r@.fungibles.dom().is_empty(),
            r@.non_fungibles.dom().is_empty(),
            r@.resource_icons.dom().is_empty(),
    {
        let r = AppData {
            accounts: KeyedList::new(),
            resources: KeyedList::new(),
            fungibles: KeyedList::new(),
            non_fungibles: KeyedList::new(),
            resource_icons: KeyedList::new(),
        };
        assert(r@.fungibles =~= Map::empty());
        assert(r@.non_fungibles =~= Map::empty());
        assert(r@.resource_icons =~= Map::empty());
        r
    }

    fn merge_fungibles_of(&mut self, u: &AccountUpdate)
        ensures
            final(self)@ == (AppDataView {
                fungibles: old(self)@.fungibles.insert(
                    u.account.address@,
                    merge_fungibles(
                        get_or(old(self)@.fungibles, u.account.address@, Map::empty()),
                        u.fungibles@,
                    ),
                ),
                ..old(self)@
            }),
    {
        let key = &u.account.address;
        let ghost initial = self@;
        let ghost start = get_or(self@.fungibles, key@, Map::empty());
        let mut held: Fungibles = match self.fungibles.remove(key) {
            Some(m) => m,
            None => KeyedList::new(),
        };
        assert(held@ == start);
        let mut i: usize = 0;
        while i < u.fungibles.len()
            invariant
                i <= u.fungibles@.len(),
                held@ == merge_fungibles(start, u.fungibles@.take(i as int)),
            decreases u.fungibles@.len() - i,
        {
            let asset = &u.fungibles[i];
            held.insert(asset.resource_address.clone(), asset.clone());
            assert(u.fungibles@.take(i + 1).drop_last() =~= u.fungibles@.take(i as int));
            i += 1;
        }
        assert(u.fungibles@.take(u.fungibles@.len() as int) =~= u.fungibles@);
        self.fungibles.insert(key.clone(), held);
        assert(self@.fungibles =~= initial.fungibles.insert(
            key@,
            merge_fungibles(start, u.fungibles@),
        ));
    }

    fn merge_non_fungibles_of(&mut self, u: &AccountUpdate)
        ensures
            final(self)@ == (AppDataView {
                non_fungibles: old(self)@.non_fungibles.insert(
                    u.account.address@,
                    merge_non_fungibles(
                        get_or(old(self)@.non_fungibles, u.account.address@, Map::empty()),
                        u.non_fungibles@,
                    ),
                ),
                ..old(self)@
            }),
    {
        let key = &u.account.address;
        let ghost initial = self@;
        let ghost start = get_or(self@.non_fungibles, key@, Map::empty());
        let mut held: NonFungibles = match self.non_fungibles.remove(key) {
            Some(m) => m,
            None => KeyedList::new(),
        };
        assert(non_fungible_map_view(held@) =~= start);
        let mut i: usize = 0;
        while i < u.non_fungibles.len()
            invariant
                i <= u.non_fungibles@.len(),
                non_fungible_map_view(held@) == merge_non_fungibles(
                    start,
                    u.non_fungibles@.take(i as int),
                ),
            decreases u.non_fungibles@.len() - i,
        {
            let asset = &u.non_fungibles[i];
            let ghost before = held@;
            held.insert(asset.resource_address.clone(), asset.clone());
            assert(u.non_fungibles@.take(i + 1).drop_last() =~= u.non_fungibles@.take(i as int));
            assert(non_fungible_map_view(held@) =~= non_fungible_map_view(before).insert(
                asset.resource_address@,
                asset@,
            ));
            i += 1;
        }
        assert(u.non_fungibles@.take(u.non_fungibles@.len() as int) =~= u.non_fungibles@);
        self.non_fungibles.insert(key.clone(), held);
        assert(self@.non_fungibles =~= initial.non_fungibles.insert(
            key@,
            merge_non_fungibles(start, u.non_fungibles@),
        ));
    }

    fn merge_account_of(&mut self, u: &AccountUpdate)
        ensures
            final(self)@ == (AppDataView {
                accounts: old(self)@.accounts.insert(
                    u.account.address@,
                    merged_account(old(self)@.accounts, u.account),
                ),
                ..old(self)@
            }),
    {
        let key = &u.account.address;
        let ghost initial = self@;
        let merged = match self.accounts.remove(key) {
            Some(known) => Account { balances_last_updated: u.account.balances_last_updated, ..known },
            None => u.account.clone(),
        };
        self.accounts.insert(key.clone(), merged);
        assert(self@.accounts =~= initial.accounts.insert(
            key@,
            merged_account(initial.accounts, u.account),
        ));
    }

    /// Merges what one sync learned into the data in memory: each account's balances and
    /// collections are replaced or joined asset by asset, a known account takes the time of
    /// its new balances, a new account is added, and the new resources are added or replace
    /// the ones known.
    pub fn process_updated_accounts_and_resources(&mut self, update: &AccountsUpdate)
        ensures
            final(self)@ == (AppDataView {
                resources: old(self)@.resources.union_prefer_right(update.new_resources@),
                ..apply_account_updates(old(self)@, update.account_updates@)
            }),
    {
        let ghost initial = self@;
        let us = &update.account_updates;
        let mut i: usize = 0;
        while i < us.len()
            invariant
                i <= us@.len(),
                self@ == apply_account_updates(initial, us@.take(i as int)),
            decreases us@.len() - i,
        {
            let u = &us[i];
            self.merge_fungibles_of(u);
            self.merge_non_fungibles_of(u);
            self.merge_account_of(u);
            assert(us@.take(i + 1).drop_last() =~= us@.take(i as int));
            i += 1;
        }
        assert(us@.take(us@.len() as int) =~= us@);
        proof {
            lemma_updates_keep_resources(initial, us@);
        }
        let new_resources = clone_resources(&update.new_resources);
        self.resources.extend(new_resources);
    }
}

/// Everything that the database holds, read at login.
pub struct AppdataFromDisk {
    pub accounts: KeyedList<AccountAddress, Account>,
    pub resources: KeyedList<ResourceAddress, Resource>,
    pub fungible_assets: KeyedList<AccountAddress, Fungibles>,
    pub non_fungible_assets: KeyedList<AccountAddress, NonFungibles>,
}

impl AppData {
    /// Replaces the accounts, resources and assets in memory by what was read from disk; the
    /// icons stay.
    pub fn place_accounts_and_resources_in_memory(&mut self, from_disk: AppdataFromDisk)
        ensures
            final(self)@ == (AppDataView {
                accounts: from_disk.accounts@,
                resources: from_disk.resources@,
                fungibles: fungibles_view(from_disk.fungible_assets@),
                non_fungibles: non_fungibles_view(from_disk.non_fungible_assets@),
                resource_icons: old(self)@.resource_icons,
            }),
    {
        self.accounts = from_disk.accounts;
        self.resources = from_disk.resources;
        self.fungibles = from_disk.fungible_assets;
        self.non_fungibles = from_disk.non_fungible_assets;
    }

    /// Adds loaded icons; an icon replaces the one held for the same resource.
    pub fn store_icons_in_app_data(&mut self, icons: KeyedList<ResourceAddress, Vec<u8>>)
        ensures
            final(self)@ == (AppDataView {
                resource_icons: old(self)@.resource_icons.union_prefer_right(icons_view(icons@)),
                ..old(self)@
            }),
    {
        let ghost initial = self@;
        let ghost added = icons@;
        self.resource_icons.extend(icons);
        assert(self@.resource_icons =~= initial.resource_icons.union_prefer_right(
            icons_view(added),
        ));
    }
}

/// A copy of a resource table.
pub fn clone_resources(m: &KeyedList<ResourceAddress, Resource>) -> (r: KeyedList<ResourceAddress, Resource>)
    ensures
        r@ == m@,
{
    let mut r = KeyedList::new();
    let mut i: usize = 0;
    while i < m.len()
        invariant
            i <= m.entries().len(),
            forall|k: Seq<char>| #[trigger] r@.contains_key(k) ==> m@.contains_key(k) && r@[k] == m@[k],
            forall|j: int| 0 <= j < i ==> #[trigger] r@.contains_key(m.entries()[j].0.text()),
        decreases m.entries().len() - i,
    {
        let (k, v) = m.entry_at(i);
        r.insert(k.clone(), v.clone());
        i += 1;
    }
    assert(r@ =~= m@);
    r
}

/// The accounts of a table, in the table's order.
pub open spec fn account_values(entries: Seq<(AccountAddress, Account)>) -> Seq<Account> {
    entries.map_values(|e: (AccountAddress, Account)| e.1)
}

/// Accounts listed by their ids, smallest first.
pub open spec fn sorted_by_id(s: Seq<Account>) -> bool {
    forall|a: int, b: int| 0 <= a < b < s.len() ==> (#[trigger] s[a]).id <= (#[trigger] s[b]).id
}

impl AppData {
    /// The wallet's accounts ordered by id, as the account pickers list them.
    pub fn accounts_by_id(&self) -> (r: Vec<Account>)
        ensures
            r@.to_multiset() == account_values(self.accounts.entries()).to_multiset(),
            sorted_by_id(r@),
    {
        let ghost vals = account_values(self.accounts.entries());
        let n = self.accounts.len();
        let mut r: Vec<Account> = Vec::new();
        let mut i: usize = 0;
        assert(r@ =~= vals.take(0));
        while i < n
            invariant
                n == self.accounts.entries().len(),
                vals == account_values(self.accounts.entries()),
                i <= n,
                r@.to_multiset() == vals.take(i as int).to_multiset(),
                sorted_by_id(r@),
            decreases n - i,
        {
            let (_, account) = self.accounts.entry_at(i);
            let x = account.clone();
            let mut k: usize = 0;
            while k < r.len() && r[k].id <= x.id
                invariant
                    k <= r@.len(),
                    forall|a: int| 0 <= a < k ==> (#[trigger] r@[a]).id <= x.id,
                decreases r@.len() - k,
            {
                k += 1;
            }
            let ghost before = r@;
            proof {
                vstd::seq_lib::to_multiset_insert(before, k as int, x);
                vstd::seq_lib::to_multiset_build(vals.take(i as int), x);
                assert(vals.take(i + 1) =~= vals.take(i as int).push(x));
            }
            r.insert(k, x);
            assert(r@ =~= before.insert(k as int, x));
            assert forall|a: int, b: int| 0 <= a < b < r@.len() implies (#[trigger] r@[a]).id
                <= (#[trigger] r@[b]).id by {
                if b < k {
                    assert(r@[a] == before[a] && r@[b] == before[b]);
                } else if b == k {
                    assert(r@[a] == before[a]);
                } else if a == k {
                    assert(r@[b] == before[b - 1]);
                } else if a < k {
                    assert(r@[a] == before[a] && r@[b] == before[b - 1]);
                    if k < before.len() {
                        assert(before[k as int].id > x.id);
                    }
                } else {
                    assert(r@[a] == before[a - 1] && r@[b] == before[b - 1]);
                }
            }
            i += 1;
        }
        assert(vals.take(n as int) =~= vals);
        r
    }
}

/// A table that was read, or an empty one where the read failed.
pub fn read_or_empty<K: TextKey, V>(read: Option<KeyedList<K, V>>) -> (r: KeyedList<K, V>)
    ensures
        r@ == match read {
            Some(t) => t@,
            None => Map::<Seq<char>, V>::empty(),
        },
{
    match read {
        Some(t) => t,
        None => KeyedList::new(),
    }
}

impl AppdataFromDisk {
    /// What login loads from the database: each table as read, or empty where its read
    /// failed.
    pub fn from_reads(
        accounts: Option<KeyedList<AccountAddress, Account>>,
        resources: Option<KeyedList<ResourceAddress, Resource>>,
        fungible_assets: Option<KeyedList<AccountAddress, Fungibles>>,
        non_fungible_assets: Option<KeyedList<AccountAddress, NonFungibles>>,
    ) -> (r: Self)
        ensures
            r.accounts@ == match accounts {
                Some(t) => t@,
                None => Map::empty(),
            },
            r.resources@ == match resources {
                Some(t) => t@,
                None => Map::empty(),
            },
            r.fungible_assets@ == match fungible_assets {
                Some(t) => t@,
                None => Map::empty(),
            },
            r.non_fungible_assets@ == match non_fungible_assets {
                Some(t) => t@,
                None => Map::empty(),
            },
    {
        AppdataFromDisk {
            accounts: read_or_empty(accounts),
            resources: read_or_empty(resources),
            fungible_assets: read_or_empty(fungible_assets),
            non_fungible_assets: read_or_empty(non_fungible_assets),
        }
    }
}

/// Whether a collection of a later position in a sync carries the same resource address.
pub open spec fn replaced_later(assets: Seq<NonFungibleAsset>, i: int) -> bool {
    exists|j: int| i < j < assets.len() && (#[trigger] assets[j]).resource_address@ == assets[i].resource_address@
}

/// Whether a sync carries a collection under a resource address.
pub open spec fn synced_collection(assets: Seq<NonFungibleAsset>, k: Seq<char>) -> bool {
    exists|j: int| 0 <= j < assets.len() && (#[trigger] assets[j]).resource_address@ == k
}

/// A collection that a sync carries, and that no later one of the same sync replaces, is the
/// one held afterwards under its resource address.
pub proof fn lemma_synced_collection_held(m: Map<Seq<char>, NonFungibleView>, assets: Seq<NonFungibleAsset>, i: int)
    requires
        0 <= i < assets.len(),
        !replaced_later(assets, i),
    ensures
        merge_non_fungibles(m, assets).contains_key(assets[i].resource_address@),
        merge_non_fungibles(m, assets)[assets[i].resource_address@] == assets[i]@,
    decreases assets.len(),
{
    let n = assets.len() - 1;
    let dl = assets.drop_last();
    assert(merge_non_fungibles(m, assets) == merge_non_fungibles(m, dl).insert(
        assets[n].resource_address@,
        assets[n]@,
    ));
    if i < n {
        assert(dl[i] == assets[i]);
        assert(assets[n].resource_address@ != assets[i].resource_address@);
        assert(!replaced_later(dl, i)) by {
            if replaced_later(dl, i) {
                let j = choose|j: int| i < j < dl.len() && (#[trigger] dl[j]).resource_address@
                    == dl[i].resource_address@;
                assert(dl[j] == assets[j]);
            }
        }
        lemma_synced_collection_held(m, dl, i);
    }
}

/// A collection that a sync does not carry stays as it was, and no address is added that
/// neither was known nor synced.
pub proof fn lemma_unsynced_collection_kept(m: Map<Seq<char>, NonFungibleView>, assets: Seq<NonFungibleAsset>, k: Seq<char>)
    requires
        !synced_collection(assets, k),
    ensures
        merge_non_fungibles(m, assets).contains_key(k) == m.contains_key(k),
        m.contains_key(k) ==> merge_non_fungibles(m, assets)[k] == m[k],
    decreases assets.len(),
{
    if assets.len() > 0 {
        let n = assets.len() - 1;
        let dl = assets.drop_last();
        assert(merge_non_fungibles(m, assets) == merge_non_fungibles(m, dl).insert(
            assets[n].resource_address@,
            assets[n]@,
        ));
        assert(assets[n].resource_address@ != k);
        assert(!synced_collection(dl, k)) by {
            if synced_collection(dl, k) {
                let j = choose|j: int| 0 <= j < dl.len() && (#[trigger] dl[j]).resource_address@ == k;
                assert(dl[j] == assets[j]);
            }
        }
        lemma_unsynced_collection_kept(m, dl, k);
    }
}

/// What a sync makes of an account's collections: each synced collection replaces the one
/// known under its resource address (the last one, where a sync carries the address twice);
/// collections that the sync does not carry stay as they were; nothing else is added.
pub proof fn law_synced_collections_replace(
    m: Map<Seq<char>, NonFungibleView>,
    assets: Seq<NonFungibleAsset>,
)
    ensures
        forall|i: int|
            0 <= i < assets.len() && !replaced_later(assets, i) ==> merge_non_fungibles(
                m,
                assets,
            ).contains_key((#[trigger] assets[i]).resource_address@) && merge_non_fungibles(
                m,
                assets,
            )[assets[i].resource_address@] == assets[i]@,
        forall|k: Seq<char>|
            !synced_collection(assets, k) ==> (#[trigger] merge_non_fungibles(m, assets).contains_key(k)
                == m.contains_key(k)) && (m.contains_key(k) ==> merge_non_fungibles(m, assets)[k]
                == m[k]),
{
    assert forall|i: int| 0 <= i < assets.len() && !replaced_later(assets, i) implies merge_non_fungibles(
        m,
        assets,
    ).contains_key((#[trigger] assets[i]).resource_address@) && merge_non_fungibles(
        m,
        assets,
    )[assets[i].resource_address@] == assets[i]@ by {
        lemma_synced_collection_held(m, assets, i);
    }
    assert forall|k: Seq<char>| !synced_collection(assets, k) implies (
    #[trigger] merge_non_fungibles(m, assets).contains_key(k) == m.contains_key(k)) && (
    m.contains_key(k) ==> merge_non_fungibles(m, assets)[k] == m[k]) by {
        lemma_unsynced_collection_kept(m, assets, k);
    }
}

/// Whether a balance of a later position in a sync carries the same resource address.
pub open spec fn balance_replaced_later(assets: Seq<FungibleAsset>, i: int) -> bool {
    exists|j: int| i < j < assets.len() && (#[trigger] assets[j]).resource_address@ == assets[i].resource_address@
}

/// Whether a sync carries a balance under a resource address.
pub open spec fn synced_balance(assets: Seq<FungibleAsset>, k: Seq<char>) -> bool {
    exists|j: int| 0 <= j < assets.len() && (#[trigger] assets[j]).resource_address@ == k
}

/// A synced balance that no later one of the same sync replaces is the one held afterwards
/// under its resource address.
pub proof fn lemma_synced_balance_held(m: Map<Seq<char>, FungibleAsset>, assets: Seq<FungibleAsset>, i: int)
    requires
        0 <= i < assets.len(),
        !balance_replaced_later(assets, i),
    ensures
        merge_fungibles(m, assets).contains_key(assets[i].resource_address@),
        merge_fungibles(m, assets)[assets[i].resource_address@] == assets[i],
    decreases assets.len(),
{
    let n = assets.len() - 1;
    let dl = assets.drop_last();
    assert(merge_fungibles(m, assets) == merge_fungibles(m, dl).insert(
        assets[n].resource_address@,
        assets[n],
    ));
    if i < n {
        assert(dl[i] == assets[i]);
        assert(assets[n].resource_address@ != assets[i].resource_address@);
        assert(!balance_replaced_later(dl, i)) by {
            if balance_replaced_later(dl, i) {
                let j = choose|j: int| i < j < dl.len() && (#[trigger] dl[j]).resource_address@
                    == dl[i].resource_address@;
                assert(dl[j] == assets[j]);
            }
        }
        lemma_synced_balance_held(m, dl, i);
    }
}

/// A balance that a sync does not carry stays as it was, and no address is added that was
/// neither known nor synced.
pub proof fn lemma_unsynced_balance_kept(m: Map<Seq<char>, FungibleAsset>, assets: Seq<FungibleAsset>, k: Seq<char>)
    requires
        !synced_balance(assets, k),
    ensures
        merge_fungibles(m, assets).contains_key(k) == m.contains_key(k),
        m.contains_key(k) ==> merge_fungibles(m, assets)[k] == m[k],
    decreases assets.len(),
{
    if assets.len() > 0 {
        let n = assets.len() - 1;
        let dl = assets.drop_last();
        assert(merge_fungibles(m, assets) == merge_fungibles(m, dl).insert(
            assets[n].resource_address@,
            assets[n],
        ));
        assert(assets[n].resource_address@ != k);
        assert(!synced_balance(dl, k)) by {
            if synced_balance(dl, k) {
                let j = choose|j: int| 0 <= j < dl.len() && (#[trigger] dl[j]).resource_address@ == k;
                assert(dl[j] == assets[j]);
            }
        }
        lemma_unsynced_balance_kept(m, dl, k);
    }
}

/// What a sync makes of an account's balances: each synced balance replaces the one known
/// under its resource address (the last one, where a sync carries the address twice);
/// balances that the sync does not carry stay as they were; nothing else is added.
pub proof fn law_synced_balances_replace(m: Map<Seq<char>, FungibleAsset>, assets: Seq<FungibleAsset>)
    ensures
        forall|i: int|
            0 <= i < assets.len() && !balance_replaced_later(assets, i) ==> merge_fungibles(
                m,
                assets,
            ).contains_key((#[trigger] assets[i]).resource_address@) && merge_fungibles(
                m,
                assets,
            )[assets[i].resource_address@] == assets[i],
        forall|k: Seq<char>|
            !synced_balance(assets, k) ==> (#[trigger] merge_fungibles(m, assets).contains_key(k)
                == m.contains_key(k)) && (m.contains_key(k) ==> merge_fungibles(m, assets)[k] == m[k]),
{
    assert forall|i: int| 0 <= i < assets.len() && !balance_replaced_later(assets, i) implies merge_fungibles(
        m,
        assets,
    ).contains_key((#[trigger] assets[i]).resource_address@) && merge_fungibles(
        m,
        assets,
    )[assets[i].resource_address@] == assets[i] by {
        lemma_synced_balance_held(m, assets, i);
    }
    assert forall|k: Seq<char>| !synced_balance(assets, k) implies (
    #[trigger] merge_fungibles(m, assets).contains_key(k) == m.contains_key(k)) && (m.contains_key(k)
        ==> merge_fungibles(m, assets)[k] == m[k]) by {
        lemma_unsynced_balance_kept(m, assets, k);
    }
}

/// Whether a later update of the same list is for the same account.
pub open spec fn updated_later(us: Seq<AccountUpdate>, i: int) -> bool {
    exists|j: int| i < j < us.len() && (#[trigger] us[j]).account.address@ == us[i].account.address@
}

/// The last update of an account decides what is held for it afterwards: the time of its
/// balances, each balance and each collection that it carries (the last one per resource).
pub proof fn lemma_latest_update_held(d: AppDataView, us: Seq<AccountUpdate>, i: int)
    requires
        0 <= i < us.len(),
        !updated_later(us, i),
    ensures
        ({
            let a = us[i].account.address@;
            let r = apply_account_updates(d, us);
            &&& r.accounts.contains_key(a)
            &&& r.accounts[a].balances_last_updated == us[i].account.balances_last_updated
            &&& r.fungibles.contains_key(a)
            &&& r.fungibles[a] == merge_fungibles(
                get_or(apply_account_updates(d, us.take(i)).fungibles, a, Map::empty()),
                us[i].fungibles@,
            )
            &&& r.non_fungibles.contains_key(a)
            &&& r.non_fungibles[a] == merge_non_fungibles(
                get_or(apply_account_updates(d, us.take(i)).non_fungibles, a, Map::empty()),
                us[i].non_fungibles@,
            )
        }),
    decreases us.len(),
{
    let n = us.len() - 1;
    let dl = us.drop_last();
    if i < n {
        assert(dl[i] == us[i]);
        assert(us[n].account.address@ != us[i].account.address@);
        assert(!updated_later(dl, i)) by {
            if updated_later(dl, i) {
                let j = choose|j: int| i < j < dl.len() && (#[trigger] dl[j]).account.address@
                    == dl[i].account.address@;
                assert(dl[j] == us[j]);
            }
        }
        assert(dl.take(i) =~= us.take(i));
        lemma_latest_update_held(d, dl, i);
    } else {
        assert(dl =~= us.take(i));
    }
}

/// After a sync of several accounts, each account holds what its last update carried: that
/// update's time of balances, and each of its balances and collections (the last one per
/// resource address) replaces what was known before.
pub proof fn law_latest_sync_is_held(d: AppDataView, us: Seq<AccountUpdate>)
    ensures
        forall|i: int|
            0 <= i < us.len() && !updated_later(us, i) ==> apply_account_updates(d, us).accounts[(
            #[trigger] us[i]).account.address@].balances_last_updated
                == us[i].account.balances_last_updated,
        forall|i: int, j: int|
            0 <= i < us.len() && !updated_later(us, i) && 0 <= j < us[i].fungibles@.len()
                && !balance_replaced_later(us[i].fungibles@, j) ==> apply_account_updates(
                d,
                us,
            ).fungibles[us[i].account.address@][(#[trigger] us[i].fungibles@[j]).resource_address@]
                == us[i].fungibles@[j],
        forall|i: int, j: int|
            0 <= i < us.len() && !updated_later(us, i) && 0 <= j < us[i].non_fungibles@.len()
                && !replaced_later(us[i].non_fungibles@, j) ==> apply_account_updates(
                d,
                us,
            ).non_fungibles[us[i].account.address@][(
            #[trigger] us[i].non_fungibles@[j]).resource_address@] == us[i].non_fungibles@[j]@,
{
    assert forall|i: int|
        0 <= i < us.len() && !updated_later(us, i) implies apply_account_updates(d, us).accounts[(
    #[trigger] us[i]).account.address@].balances_last_updated == us[i].account.balances_last_updated by {
        lemma_latest_update_held(d, us, i);
    }
    assert forall|i: int, j: int|
        0 <= i < us.len() && !updated_later(us, i) && 0 <= j < us[i].fungibles@.len()
            && !balance_replaced_later(us[i].fungibles@, j) implies apply_account_updates(
            d,
            us,
        ).fungibles[us[i].account.address@][(#[trigger] us[i].fungibles@[j]).resource_address@]
            == us[i].fungibles@[j] by {
        lemma_latest_update_held(d, us, i);
        lemma_synced_balance_held(
            get_or(apply_account_updates(d, us.take(i)).fungibles, us[i].account.address@, Map::empty()),
            us[i].fungibles@,
            j,
        );
    }
    assert forall|i: int, j: int|
        0 <= i < us.len() && !updated_later(us, i) && 0 <= j < us[i].non_fungibles@.len()
            && !replaced_later(us[i].non_fungibles@, j) implies apply_account_updates(
            d,
            us,
        ).non_fungibles[us[i].account.address@][(
        #[trigger] us[i].non_fungibles@[j]).resource_address@] == us[i].non_fungibles@[j]@ by {
        lemma_latest_update_held(d, us, i);
        lemma_synced_collection_held(
            get_or(apply_account_updates(d, us.take(i)).non_fungibles, us[i].account.address@, Map::empty()),
            us[i].non_fungibles@,
            j,
        );
    }
}

/// Whether a list of updates has one for an account.
pub open spec fn has_update_for(us: Seq<AccountUpdate>, a: Seq<char>) -> bool {
    exists|i: int| 0 <= i < us.len() && (#[trigger] us[i]).account.address@ == a
}

/// A sync leaves every account that it has no update for as it was: its record, balances and
/// collections.
pub proof fn law_accounts_without_update_are_kept(d: AppDataView, us: Seq<AccountUpdate>, a: Seq<char>)
    requires
        !has_update_for(us, a),
    ensures
        apply_account_updates(d, us).accounts.contains_key(a) == d.accounts.contains_key(a),
        d.accounts.contains_key(a) ==> apply_account_updates(d, us).accounts[a] == d.accounts[a],
        apply_account_updates(d, us).fungibles.contains_key(a) == d.fungibles.contains_key(a),
        d.fungibles.contains_key(a) ==> apply_account_updates(d, us).fungibles[a] == d.fungibles[a],
        apply_account_updates(d, us).non_fungibles.contains_key(a) == d.non_fungibles.contains_key(a),
        d.non_fungibles.contains_key(a) ==> apply_account_updates(d, us).non_fungibles[a]
            == d.non_fungibles[a],
    decreases us.len(),
{
    if us.len() > 0 {
        let n = us.len() - 1;
        let dl = us.drop_last();
        assert(us.last() == us[n]);
        assert(us[n].account.address@ != a);
        assert(!has_update_for(dl, a)) by {
            if has_update_for(dl, a) {
                let i = choose|i: int| 0 <= i < dl.len() && (#[trigger] dl[i]).account.address@ == a;
                assert(dl[i] == us[i]);
            }
        }
        law_accounts_without_update_are_kept(d, dl, a);
    }
}

/// A sync never renames or renumbers an account the wallet knew: its id, name, address and
/// derivation index stay; only the time of its balances can change.
pub proof fn law_known_accounts_keep_their_record(d: AppDataView, us: Seq<AccountUpdate>, a: Seq<char>)
    requires
        d.accounts.contains_key(a),
    ensures
        apply_account_updates(d, us).accounts.contains_key(a),
        apply_account_updates(d, us).accounts[a].id == d.accounts[a].id,
        apply_account_updates(d, us).accounts[a].name == d.accounts[a].name,
        apply_account_updates(d, us).accounts[a].address == d.accounts[a].address,
        apply_account_updates(d, us).accounts[a].derivation_index == d.accounts[a].derivation_index,
    decreases us.len(),
{
    if us.len() > 0 {
        law_known_accounts_keep_their_record(d, us.drop_last(), a);
    }
}

} // verus!
