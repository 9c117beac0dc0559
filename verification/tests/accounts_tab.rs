use ravault_ui::accounts::account_view::{self, AccountView, AssetView};
use ravault_ui::accounts::accounts_message::{AccountsViewMessage, FungiblesMessage};
use ravault_ui::accounts::accounts_view::{self, AccountsView};
use ravault_ui::accounts::fungible::{FungibleView, Icon};
use ravault_ui::accounts::fungibles::{self, Fungibles, FungiblesAction};
use ravault_ui::accounts::nfts;
use ravault_ui::accounts::non_fungible::{
    self, field_value, find_nft, nft_id_label, nft_metadata, trimmed_id, NftIdLabel, NonFungible,
};
use ravault_ui::accounts::non_fungibles::{self, NonFungibles, NonFungiblesAction};
use ravault_ui::app_data::AppData;
use ravault_ui::keyed::KeyedList;
use ravault_ui::model::{Account, AccountAddress, FungibleAsset, NfData, NonFungibleAsset, Nft, Resource, ResourceAddress};

fn addr(s: &str) -> AccountAddress {
    AccountAddress(s.to_string())
}

fn data(key: &str, value: &str) -> NfData {
    NfData { key: key.to_string(), value: value.to_string() }
}

fn nft(id: &str, fields: Vec<NfData>) -> Nft {
    Nft { id: id.to_string(), nfdata: fields }
}

fn collection() -> NonFungibleAsset {
    NonFungibleAsset {
        resource_address: ResourceAddress("nft_res".to_string()),
        nfids: vec![
            nft("#1#", vec![data("name", "First"), data("key_image_url", "https://img/1.png")]),
            nft("#2#", vec![data("name", "Second")]),
            nft("#3#", vec![data("key_image_url", "https://img/3.png"), data("color", "blue")]),
        ],
    }
}

fn wallet() -> AppData {
    let mut d = AppData::new();
    d.accounts.insert(
        addr("acc_1"),
        Account { id: 0, name: "Main".to_string(), address: addr("acc_1"), derivation_index: 0, balances_last_updated: None },
    );
    d
}

#[test]
fn toggle_expand_flips_and_twice_restores() {
    let mut tab = AccountsView::new();
    let d = wallet();
    tab.update(accounts_view::Message::ToggleExpand(addr("acc_1")), &d);
    match &tab {
        AccountsView::OverView(m) => assert_eq!(m.get(&addr("acc_1")), Some(&true)),
        _ => panic!("list expected"),
    }
    tab.update(accounts_view::Message::ToggleExpand(addr("acc_1")), &d);
    match &tab {
        AccountsView::OverView(m) => assert_eq!(m.get(&addr("acc_1")), Some(&false)),
        _ => panic!("list expected"),
    }
}

#[test]
fn selecting_an_account_opens_its_tokens() {
    let d = wallet();
    let mut tab = AccountsView::new();
    tab.update(accounts_view::Message::SelectAccount(addr("nobody")), &d);
    assert!(matches!(tab, AccountsView::OverView(_)));
    tab.update(accounts_view::Message::SelectAccount(addr("acc_1")), &d);
    match &tab {
        AccountsView::Account(v) => {
            assert_eq!(v.name, "Main");
            assert!(matches!(&v.view, AssetView::Tokens(f) if f.account_addr.0 == "acc_1" && f.selected.is_none()));
        }
        _ => panic!("account expected"),
    }
    let token = FungibleAsset { resource_address: ResourceAddress("xrd".to_string()), amount: "3".to_string() };
    let action = tab.update(
        accounts_view::Message::AccountViewMessage(account_view::Message::FungiblesMessage(
            fungibles::Message::SelectFungible(token),
        )),
        &d,
    );
    assert!(matches!(action, FungiblesAction::LoadIcon(ref r) if r.0 == "xrd"));
    tab.update(
        accounts_view::Message::AccountViewMessage(account_view::Message::NonFungiblesView(addr("acc_1"))),
        &d,
    );
    assert!(matches!(&tab, AccountsView::Account(v) if matches!(v.view, AssetView::NonFungibles)));
}

#[test]
fn token_icon_arrives_for_the_open_token() {
    let mut f = Fungibles::new(addr("acc_1"));
    f.update(fungibles::Message::InsertFungibleImage(vec![1]));
    assert!(f.selected.is_none());
    let token = FungibleAsset { resource_address: ResourceAddress("xrd".to_string()), amount: "3".to_string() };
    f.update(fungibles::Message::SelectFungible(token));
    assert!(matches!(f.selected.as_ref().unwrap().image, Icon::Absent));
    f.update(fungibles::Message::InsertFungibleImage(vec![7, 8]));
    assert!(matches!(&f.selected.as_ref().unwrap().image, Icon::Image(b) if b == &vec![7u8, 8]));
}

#[test]
fn account_view_constructors() {
    let a = Account { id: 2, name: "Two".to_string(), address: addr("acc_2"), derivation_index: 2, balances_last_updated: None };
    let v = AccountView::from_account(&a);
    assert_eq!(v.address.0, "acc_2");
    let mut w = AccountView::new("Two".to_string(), addr("acc_2"), vec![]);
    assert!(matches!(w.view, AssetView::Tokens(_)));
    w.update(account_view::Message::SelectPoolUnit { account_id: 0, poolunit_id: 0 });
    assert!(matches!(w.view, AssetView::Tokens(_)));
}

#[test]
fn message_driven_accounts_tab() {
    let d = wallet();
    let mut tab = AccountsView::new();
    AccountsViewMessage::ToggleExpand(addr("acc_1")).process(&mut tab, &d);
    AccountsViewMessage::SelectAccount(addr("acc_1")).process(&mut tab, &d);
    assert!(matches!(tab, AccountsView::Account(_)));
    let token = FungibleAsset { resource_address: ResourceAddress("oci".to_string()), amount: "1".to_string() };
    let action = FungiblesMessage::SelectFungible(token).process(&mut tab);
    assert!(matches!(action, FungiblesAction::LoadIcon(_)));
}

#[test]
fn opening_a_collection_starts_the_image_downloads() {
    let (nf, downloads) = NonFungible::new(collection());
    assert!(matches!(nf.image, Icon::Loading));
    assert!(nf.selected_nft.is_none());
    assert_eq!(nf.nft_images.len(), 3);
    assert!(matches!(nf.nft_images.get(&"#2#".to_string()).unwrap().0, Icon::Absent));
    assert_eq!(nf.nft_images.get(&"#1#".to_string()).unwrap().1, "https://img/1.png");
    assert_eq!(downloads.len(), 2);
    assert_eq!(downloads[0], ("#1#".to_string(), "https://img/1.png".to_string()));
    assert_eq!(downloads[1], ("#3#".to_string(), "https://img/3.png".to_string()));
}

#[test]
fn image_results_update_the_collection() {
    let (mut nf, _) = NonFungible::new(collection());
    nf.update(non_fungible::Message::FailedToGetImage("#1#".to_string()));
    assert!(matches!(nf.nft_images.get(&"#1#".to_string()).unwrap().0, Icon::Absent));
    assert_eq!(nf.nft_images.get(&"#1#".to_string()).unwrap().1, "https://img/1.png");
    nf.update(non_fungible::Message::ImageLoaded("#3#".to_string(), Icon::Image(vec![5])));
    assert!(matches!(&nf.nft_images.get(&"#3#".to_string()).unwrap().0, Icon::Image(b) if b == &vec![5u8]));
    nf.update(non_fungible::Message::ImageLoaded("#9#".to_string(), Icon::Image(vec![5])));
    assert_eq!(nf.nft_images.len(), 3);
    nf.update(non_fungible::Message::ResourceIcon(Icon::Absent));
    assert!(matches!(nf.image, Icon::Absent));
    nf.update(non_fungible::Message::SelectNFT("#2#".to_string()));
    assert_eq!(nf.selected_nft.as_deref(), Some("#2#"));
}

#[test]
fn collection_list_opens_and_passes_messages() {
    let mut list = NonFungibles::new(addr("acc_1"));
    list.update(non_fungibles::Message::InsertResourceIcon(vec![1]));
    assert!(list.selected.is_none());
    let action = list.update(non_fungibles::Message::SelectNonFungible(collection()));
    assert!(matches!(action, NonFungiblesAction::LoadImages { ref downloads, ref resource } if downloads.len() == 2 && resource.0 == "nft_res"));
    list.update(non_fungibles::Message::ResourceIconNotFound);
    assert!(matches!(list.selected.as_ref().unwrap().image, Icon::Absent));
    list.update(non_fungibles::Message::InsertResourceIcon(vec![4]));
    assert!(matches!(&list.selected.as_ref().unwrap().image, Icon::Image(b) if b == &vec![4u8]));
    list.update(non_fungibles::Message::NonFungibleMessage(non_fungible::Message::SelectNFT("#1#".to_string())));
    assert_eq!(list.selected.as_ref().unwrap().selected_nft.as_deref(), Some("#1#"));
    let _older = nfts::NonFungibles::new(addr("acc_1"));
}

#[test]
fn nft_details_fields() {
    let asset = collection();
    assert_eq!(field_value(&asset.nfids[0].nfdata, "name"), "First");
    assert_eq!(field_value(&asset.nfids[2].nfdata, "name"), "");
    let meta = nft_metadata(&asset.nfids[2]);
    assert_eq!(meta.len(), 1);
    assert_eq!(meta[0].key, "color");
    assert_eq!(find_nft(&asset, "#2#"), Some(1));
    assert_eq!(find_nft(&asset, "#7#"), None);
}

#[test]
fn nft_ids_are_trimmed_and_shortened() {
    assert_eq!(trimmed_id("{<abc>}"), "abc");
    assert_eq!(trimmed_id("<>"), "");
    assert!(matches!(nft_id_label("#1#"), NftIdLabel::Whole(ref w) if w == "#1#"));
    let long = "{0123456789abcdef-0123456789abcdef}";
    match nft_id_label(long) {
        NftIdLabel::Shortened { head, tail } => {
            assert_eq!(head, "01234567");
            assert_eq!(tail, "bcdef");
        }
        NftIdLabel::Whole(w) => panic!("not shortened: {}", w),
    }
    // 21 bytes once trimmed: shown whole.
    assert!(matches!(nft_id_label("<123456789012345678901>"), NftIdLabel::Whole(ref w) if w.len() == 21));
}

#[test]
fn collection_head_falls_back_when_the_resource_is_unknown() {
    let (nf, _) = NonFungible::new(collection());
    let mut resources: KeyedList<ResourceAddress, Resource> = KeyedList::new();
    let labels = nf.labels(&resources);
    assert_eq!(labels.name, non_fungible::NO_NAME);
    assert_eq!(labels.description, non_fungible::NO_DESCRIPTION);
    assert_eq!(labels.current_supply, non_fungible::UNKNOWN_SUPPLY);
    assert_eq!(labels.symbol, "");
    assert_eq!(labels.nft_count, 3);
    resources.insert(
        ResourceAddress("nft_res".to_string()),
        Resource {
            address: ResourceAddress("nft_res".to_string()),
            name: "Scorpions".to_string(),
            symbol: "SCRP".to_string(),
            description: "Pincers".to_string(),
            current_supply: "42".to_string(),
            divisibility: None,
        },
    );
    let labels = nf.labels(&resources);
    assert_eq!(labels.name, "Scorpions");
    assert_eq!(labels.current_supply, "42");
}

#[test]
fn token_page_texts() {
    let view = FungibleView::new(
        FungibleAsset { resource_address: ResourceAddress("xrd".to_string()), amount: "3".to_string() },
        Icon::Absent,
    );
    let mut resources: KeyedList<ResourceAddress, Resource> = KeyedList::new();
    assert!(view.details(&resources).is_none());
    let labels = view.labels(&resources);
    assert_eq!(labels.name, non_fungible::NO_NAME);
    assert_eq!(labels.symbol, "");
    assert_eq!(labels.description, non_fungible::NO_DESCRIPTION);
    assert_eq!(labels.current_supply, non_fungible::UNKNOWN_SUPPLY);
    assert_eq!(labels.amount, "3");
    resources.insert(
        ResourceAddress("xrd".to_string()),
        Resource {
            address: ResourceAddress("xrd".to_string()),
            name: "Radix".to_string(),
            symbol: "XRD".to_string(),
            description: "Native token".to_string(),
            current_supply: "24bn".to_string(),
            divisibility: None,
        },
    );
    let details = view.details(&resources).unwrap();
    assert_eq!(details.name, "Radix");
    assert_eq!(details.divisibility, 1);
    assert_eq!(view.labels(&resources).symbol, "XRD");
}
