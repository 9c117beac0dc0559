use ravault_ui::app_data::AppData;
use ravault_ui::app_view_message::{AppViewMessage, Tab, TabChoice, TabsAction, TabsView};
use ravault_ui::model::{Account, AccountAddress, ResourceAddress};
use ravault_ui::transaction::add_assets;
use ravault_ui::transaction::create_transaction::Screen;
use ravault_ui::transaction::recipients::AmountInput;
use ravault_ui::transaction::transaction_message::{
    AddAssetsMessage, ChooseRecipientMessage, TransactionMessage,
};
use ravault_ui::transaction::transaction_view::{Message, TransactionView};

fn addr(s: &str) -> AccountAddress {
    AccountAddress(s.to_string())
}

fn res(s: &str) -> ResourceAddress {
    ResourceAddress(s.to_string())
}

fn account(id: usize, a: &str) -> Account {
    Account { id, name: format!("Account {}", id), address: addr(a), derivation_index: id as u32, balances_last_updated: None }
}

#[test]
fn tab_view_message_and_assets() {
    let data = AppData::new();
    let mut v = TransactionView::new(Some(account(0, "me")), None);
    v.update(Message::UpdateMessage("rent".to_string()), &data);
    assert_eq!(v.message, "rent");
    v.update(Message::AddAssets { recipient_index: 0, from_account: addr("me") }, &data);
    assert!(matches!(v.screen, Screen::AddAssets(_)));
    v.update(Message::AddAssetsMessage(add_assets::Message::SelectAsset(res("xrd"), "XRD".to_string())), &data);
    v.update(Message::AddAssetsMessage(add_assets::Message::SubmitAssets), &data);
    assert!(matches!(v.screen, Screen::Transaction));
    assert!(v.recipients[0].resources.contains_key(&res("xrd")));
    v.update(
        Message::UpdateResourceAmount(0, res("xrd"), AmountInput { text: "4".to_string(), is_number: true }),
        &data,
    );
    assert_eq!(v.recipients[0].resources.get(&res("xrd")).unwrap().1, "4");
    v.update(Message::RemoveAsset(0, res("xrd")), &data);
    assert!(v.recipients[0].resources.is_empty());
    v.update(Message::SelectRecipient(0), &data);
    assert!(matches!(v.screen, Screen::ChooseRecipient(_)));
    v.update(Message::OverView, &data);
    assert!(matches!(v.screen, Screen::Transaction));
    let w = TransactionView::from_recipient(addr("friend"));
    assert_eq!(w.recipients[0].address.as_ref().unwrap().0, "friend");
}

#[test]
fn message_driven_removal_clears_the_only_recipient() {
    let data = AppData::new();
    let mut v = TransactionView::from_recipient(addr("friend"));
    TransactionMessage::AddAssets { recipient_index: 0, from_account: addr("me") }.process(&mut v, &data);
    TransactionMessage::AddAssetsMessage(AddAssetsMessage::SelectAsset(res("xrd"), "XRD".to_string()))
        .process(&mut v, &data);
    TransactionMessage::AddAssetsMessage(AddAssetsMessage::SubmitAssets).process(&mut v, &data);
    assert_eq!(v.recipients[0].resources.len(), 1);
    TransactionMessage::RemoveRecipient(0).process(&mut v, &data);
    assert_eq!(v.recipients.len(), 1);
    assert!(v.recipients[0].address.is_none());
    assert!(v.recipients[0].resources.is_empty());
}

#[test]
fn message_driven_recipient_choice() {
    let data = AppData::new();
    let mut v = TransactionView::new(None, None);
    TransactionMessage::AddRecipient.process(&mut v, &data);
    assert_eq!(v.recipients.len(), 2);
    TransactionMessage::SelectRecipient(1).process(&mut v, &data);
    TransactionMessage::ChooseRecipientMessage(ChooseRecipientMessage::RecipientInput("typed".to_string()))
        .process(&mut v, &data);
    assert!(matches!(&v.screen, Screen::ChooseRecipient(s) if s.recipient_input == "typed"));
    ChooseRecipientMessage::SelectRadioButton(addr("friend")).process(&mut v);
    TransactionMessage::ChooseRecipientMessage(ChooseRecipientMessage::Submit).process(&mut v, &data);
    assert!(matches!(v.screen, Screen::Transaction));
    assert_eq!(v.recipients[1].address.as_ref().unwrap().0, "friend");
    assert!(v.recipients[0].address.is_none());
    TransactionMessage::SelectAccount(account(3, "me")).process(&mut v, &data);
    assert_eq!(v.from_account.as_ref().unwrap().id, 3);
    TransactionMessage::UpdateMessage("hi".to_string()).process(&mut v, &data);
    assert_eq!(v.message, "hi");
}

#[test]
fn tabs_view_routes_messages() {
    let data = AppData::new();
    let mut view = TabsView::new();
    AppViewMessage::SelectTab(TabChoice::Transfer).process(&mut view, &data);
    assert!(matches!(view.active_tab, Tab::Transfer(_)));
    AppViewMessage::TransferMessage(TransactionMessage::UpdateMessage("note".to_string())).process(&mut view, &data);
    assert!(matches!(&view.active_tab, Tab::Transfer(v) if v.message == "note"));
    AppViewMessage::NewTransaction(Some(account(1, "me")), vec![]).process(&mut view, &data);
    assert!(matches!(&view.active_tab, Tab::Transfer(v) if v.message.is_empty() && v.from_account.is_some()));
    AppViewMessage::AccountsOverview.process(&mut view, &data);
    assert!(matches!(view.active_tab, Tab::Accounts(_)));
    let action = AppViewMessage::CloseOverlay.process(&mut view, &data);
    assert!(matches!(action, TabsAction::Idle));
    assert!(view.overlay.is_none());
}
