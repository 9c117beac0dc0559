use ravault_ui::app_data::{AccountUpdate, AccountsUpdate, AppData, AppdataFromDisk};
use ravault_ui::keyed::KeyedList;
use ravault_ui::model::{
    Account, AccountAddress, FungibleAsset, NfData, NonFungibleAsset, Nft, Resource,
    ResourceAddress,
};
use ravault_ui::update::{Update, UpdateAction};

fn acc(id: usize, name: &str, addr: &str, updated: Option<i64>) -> Account {
    Account {
        id,
        name: name.to_string(),
        address: AccountAddress(addr.to_string()),
        derivation_index: id as u32,
        balances_last_updated: updated,
    }
}

fn token(res: &str, amount: &str) -> FungibleAsset {
    FungibleAsset { resource_address: ResourceAddress(res.to_string()), amount: amount.to_string() }
}

fn resource(addr: &str, symbol: &str) -> Resource {
    Resource {
        address: ResourceAddress(addr.to_string()),
        name: format!("{} token", symbol),
        symbol: symbol.to_string(),
        description: String::new(),
        current_supply: "1000".to_string(),
        divisibility: Some(18),
    }
}

fn collection(res: &str, ids: &[&str]) -> NonFungibleAsset {
    NonFungibleAsset {
        resource_address: ResourceAddress(res.to_string()),
        nfids: ids
            .iter()
            .map(|id| Nft { id: id.to_string(), nfdata: vec![NfData { key: "name".to_string(), value: id.to_string() }] })
            .collect(),
    }
}

fn sync(updates: Vec<AccountUpdate>, resources: Vec<Resource>) -> AccountsUpdate {
    let mut new_resources = KeyedList::new();
    for r in resources {
        new_resources.insert(r.address.clone(), r);
    }
    AccountsUpdate { account_updates: updates, new_resources, icon_urls: KeyedList::new() }
}

#[test]
fn sync_adds_new_accounts_and_merges_balances() {
    let mut data = AppData::new();
    let a = AccountAddress("acc_a".to_string());
    let u = sync(
        vec![AccountUpdate {
            account: acc(0, "Main", "acc_a", Some(10)),
            fungibles: vec![token("xrd", "5"), token("oci", "7")],
            non_fungibles: vec![collection("nft_1", &["#1#"])],
        }],
        vec![resource("xrd", "XRD")],
    );
    data.process_updated_accounts_and_resources(&u);
    assert_eq!(data.accounts.get(&a).unwrap().name, "Main");
    let held = data.fungibles.get(&a).unwrap();
    assert_eq!(held.len(), 2);
    assert_eq!(held.get(&ResourceAddress("oci".to_string())).unwrap().amount, "7");
    assert_eq!(data.non_fungibles.get(&a).unwrap().len(), 1);
    assert!(data.resources.contains_key(&ResourceAddress("xrd".to_string())));

    // A second sync replaces a balance, adds one, and only moves the time of a known account.
    let u2 = sync(
        vec![AccountUpdate {
            account: acc(9, "Renamed elsewhere", "acc_a", Some(20)),
            fungibles: vec![token("xrd", "6"), token("new", "1")],
            non_fungibles: vec![],
        }],
        vec![resource("xrd", "XRD2")],
    );
    data.process_updated_accounts_and_resources(&u2);
    let account = data.accounts.get(&a).unwrap();
    assert_eq!(account.name, "Main");
    assert_eq!(account.id, 0);
    assert_eq!(account.balances_last_updated, Some(20));
    let held = data.fungibles.get(&a).unwrap();
    assert_eq!(held.len(), 3);
    assert_eq!(held.get(&ResourceAddress("xrd".to_string())).unwrap().amount, "6");
    assert_eq!(held.get(&ResourceAddress("oci".to_string())).unwrap().amount, "7");
    assert_eq!(data.resources.get(&ResourceAddress("xrd".to_string())).unwrap().symbol, "XRD2");
}

#[test]
fn update_routes_sync_and_asks_to_save() {
    let mut data = AppData::new();
    let u = sync(
        vec![AccountUpdate { account: acc(1, "Savings", "acc_b", None), fungibles: vec![], non_fungibles: vec![] }],
        vec![],
    );
    let action = Update::Accounts(u).update(&mut data);
    assert!(matches!(action, UpdateAction::DownloadAndSave(ref s) if s.account_updates.len() == 1));
    assert!(data.accounts.contains_key(&AccountAddress("acc_b".to_string())));
    assert!(data.fungibles.get(&AccountAddress("acc_b".to_string())).unwrap().is_empty());
}

#[test]
fn disk_data_replaces_memory_and_icons_stay() {
    let mut data = AppData::new();
    let mut icons = KeyedList::new();
    icons.insert(ResourceAddress("xrd".to_string()), vec![1u8, 2, 3]);
    assert!(matches!(Update::Icons(icons).update(&mut data), UpdateAction::Idle));
    let mut accounts = KeyedList::new();
    accounts.insert(AccountAddress("acc_c".to_string()), acc(2, "Disk", "acc_c", None));
    let from_disk = AppdataFromDisk {
        accounts,
        resources: KeyedList::new(),
        fungible_assets: KeyedList::new(),
        non_fungible_assets: KeyedList::new(),
    };
    assert!(matches!(Update::AccountsAndResources(from_disk).update(&mut data), UpdateAction::Idle));
    assert_eq!(data.accounts.len(), 1);
    assert_eq!(data.resource_icons.get(&ResourceAddress("xrd".to_string())), Some(&vec![1u8, 2, 3]));
    let mut newer = KeyedList::new();
    newer.insert(ResourceAddress("xrd".to_string()), vec![9u8]);
    data.store_icons_in_app_data(newer);
    assert_eq!(data.resource_icons.get(&ResourceAddress("xrd".to_string())), Some(&vec![9u8]));
}

#[test]
fn accounts_listed_by_id() {
    let mut data = AppData::new();
    for (id, addr) in [(3usize, "c"), (1, "a"), (2, "b"), (1, "d")] {
        data.accounts.insert(AccountAddress(addr.to_string()), acc(id, addr, addr, None));
    }
    let listed = data.accounts_by_id();
    let ids: Vec<usize> = listed.iter().map(|a| a.id).collect();
    assert_eq!(ids, vec![1, 1, 2, 3]);
    let mut names: Vec<String> = listed.iter().map(|a| a.name.clone()).collect();
    names.sort();
    assert_eq!(names, vec!["a", "b", "c", "d"]);
}

#[test]
fn failed_reads_become_empty_tables() {
    let mut accounts = KeyedList::new();
    accounts.insert(AccountAddress("acc_d".to_string()), acc(4, "Read", "acc_d", None));
    let loaded = AppdataFromDisk::from_reads(Some(accounts), None, None, None);
    assert_eq!(loaded.accounts.len(), 1);
    assert!(loaded.resources.is_empty());
    assert!(loaded.fungible_assets.is_empty());
    assert!(loaded.non_fungible_assets.is_empty());
}
