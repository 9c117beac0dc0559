use ravault_ui::app_data::AppData;
use ravault_ui::keyed::KeyedList;
use ravault_ui::model::{Account, AccountAddress, AppError, FungibleAsset, Resource, ResourceAddress};
use ravault_ui::transaction::add_assets::{self, AddAssets, AddAssetsAction, AssetTab, NO_BALANCE};
use ravault_ui::transaction::add_recipient::{self, AddRecipient, AddRecipientAction};
use ravault_ui::transaction::choose_recipient::{self, ChooseRecipient};
use ravault_ui::transaction::create_transaction::{
    submission_outcome, CreateTransaction, Message, ReviewLine, Screen, Submission, TransactionAction,
    INCOMPLETE_FORM, TRANSACTION_SUBMITTED, UNKNOWN_SENDER,
};
use ravault_ui::transaction::recipients::{offers_removal, AddressInput, AmountInput, Recipient, Selection};

fn addr(s: &str) -> AccountAddress {
    AccountAddress(s.to_string())
}

fn res(s: &str) -> ResourceAddress {
    ResourceAddress(s.to_string())
}

fn account(id: usize, a: &str) -> Account {
    Account {
        id,
        name: format!("Account {}", id),
        address: addr(a),
        derivation_index: id as u32,
        balances_last_updated: None,
    }
}

fn number(text: &str) -> AmountInput {
    AmountInput { text: text.to_string(), is_number: text.parse::<f32>().is_ok() }
}

fn resource(a: &str, name: &str, symbol: &str) -> Resource {
    Resource {
        address: res(a),
        name: name.to_string(),
        symbol: symbol.to_string(),
        description: String::new(),
        current_supply: String::new(),
        divisibility: None,
    }
}

/// A wallet with one account that holds XRD and OCI.
fn wallet_data() -> AppData {
    let mut data = AppData::new();
    data.accounts.insert(addr("me"), account(0, "me"));
    data.accounts.insert(addr("friend"), account(1, "friend"));
    let mut held: KeyedList<ResourceAddress, FungibleAsset> = KeyedList::new();
    held.insert(res("xrd"), FungibleAsset { resource_address: res("xrd"), amount: "100".to_string() });
    held.insert(res("oci"), FungibleAsset { resource_address: res("oci"), amount: "2.5".to_string() });
    held.insert(res("unknown"), FungibleAsset { resource_address: res("unknown"), amount: "1".to_string() });
    data.fungibles.insert(addr("me"), held);
    data.resources.insert(res("xrd"), resource("xrd", "Radix", "XRD"));
    data.resources.insert(res("oci"), resource("oci", "Ociswap", "OCI"));
    data
}

fn form_with_assets(data: &AppData) -> CreateTransaction {
    let mut form = CreateTransaction::new(Some(account(0, "me")), None);
    form.update(Message::AddAssets(0), data);
    form.update(Message::AddAssetsMessage(add_assets::Message::SelectAsset(res("xrd"), "XRD".to_string())), data);
    form.update(Message::AddAssetsMessage(add_assets::Message::InputAmount(res("xrd"), "XRD".to_string(), number("10"))), data);
    form.update(Message::AddAssetsMessage(add_assets::Message::SubmitAssets), data);
    form
}

#[test]
fn new_form_has_one_empty_recipient() {
    let form = CreateTransaction::new(None, None);
    assert_eq!(form.recipients.len(), 1);
    assert!(form.recipients[0].address.is_none());
    assert!(form.recipients[0].resources.is_empty());
    assert!(matches!(form.screen, Screen::Transaction));
    assert!(form.text_field.is_none());
    let form = CreateTransaction::from_recipient(addr("friend"));
    assert_eq!(form.recipients[0].address.as_ref().unwrap().0, "friend");
}

#[test]
fn removing_the_only_recipient_keeps_it_without_address() {
    let data = wallet_data();
    let mut form = CreateTransaction::from_recipient(addr("friend"));
    form.update(Message::RemoveRecipient(0), &data);
    assert_eq!(form.recipients.len(), 1);
    assert!(form.recipients[0].address.is_none());
    form.update(Message::AddRecipient, &data);
    form.update(Message::AddRecipient, &data);
    assert_eq!(form.recipients.len(), 3);
    form.update(Message::RemoveRecipient(1), &data);
    assert_eq!(form.recipients.len(), 2);
    form.update(Message::RemoveRecipient(7), &data);
    assert_eq!(form.recipients.len(), 2);
}

#[test]
fn assets_screen_hands_the_choice_to_the_recipient() {
    let data = wallet_data();
    let form = form_with_assets(&data);
    assert!(matches!(form.screen, Screen::Transaction));
    let chosen = form.recipients[0].resources.get(&res("xrd")).unwrap();
    assert_eq!(chosen.0, "XRD");
    assert_eq!(chosen.1, "10");
}

#[test]
fn amounts_must_be_numbers_or_empty() {
    let data = wallet_data();
    let mut form = form_with_assets(&data);
    form.update(Message::UpdateResourceAmount(0, res("xrd"), number("abc")), &data);
    assert_eq!(form.recipients[0].resources.get(&res("xrd")).unwrap().1, "10");
    form.update(Message::UpdateResourceAmount(0, res("xrd"), number("12.5")), &data);
    assert_eq!(form.recipients[0].resources.get(&res("xrd")).unwrap().1, "12.5");
    form.update(Message::UpdateResourceAmount(0, res("xrd"), number("")), &data);
    assert_eq!(form.recipients[0].resources.get(&res("xrd")).unwrap().1, "");
    // An asset the recipient does not have is not added by typing.
    form.update(Message::UpdateResourceAmount(0, res("oci"), number("1")), &data);
    assert!(!form.recipients[0].resources.contains_key(&res("oci")));
    form.update(Message::RemoveAsset(0, res("xrd")), &data);
    assert!(form.recipients[0].resources.is_empty());
}

#[test]
fn recipient_screen_sets_the_address() {
    let data = wallet_data();
    let mut form = form_with_assets(&data);
    form.update(Message::SelectRecipient(0), &data);
    assert!(matches!(form.screen, Screen::ChooseRecipient(_)));
    // The sender cannot be chosen by typing its address.
    form.update(
        Message::ChooseRecipientMessage(add_recipient::Message::RecipientInput(AddressInput {
            text: "me".to_string(),
            parsed: Some(addr("me")),
        })),
        &data,
    );
    if let Screen::ChooseRecipient(s) = &form.screen {
        assert!(s.chosen_account.is_none());
        assert_eq!(s.recipient_input, "me");
        assert!(!s.accounts_clickable());
        let offered = s.offered(&data.accounts);
        assert_eq!(offered.len(), 1);
        assert_eq!(offered[0].0.address.0, "friend");
        assert!(!offered[0].1);
    }
    form.update(Message::ChooseRecipientMessage(add_recipient::Message::SelectRadioButton(addr("friend"))), &data);
    form.update(Message::ChooseRecipientMessage(add_recipient::Message::Submit), &data);
    assert!(matches!(form.screen, Screen::Transaction));
    assert_eq!(form.recipients[0].address.as_ref().unwrap().0, "friend");
}

#[test]
fn transfer_request_from_the_form() {
    let data = wallet_data();
    let mut form = form_with_assets(&data);
    form.update(Message::SelectRecipient(0), &data);
    form.update(Message::ChooseRecipientMessage(add_recipient::Message::SelectRadioButton(addr("friend"))), &data);
    form.update(Message::ChooseRecipientMessage(add_recipient::Message::Submit), &data);
    let parsed: Vec<Vec<Option<f64>>> = vec![vec![Some(10.0)]];
    let request = form.build_transfer_request(&parsed).expect("a complete form");
    assert_eq!(request.from.0, "me");
    assert_eq!(request.transfers.len(), 1);
    assert_eq!(request.transfers[0].to.0, "friend");
    assert_eq!(request.transfers[0].fungibles[0].resource.0, "xrd");
    assert_eq!(request.transfers[0].fungibles[0].amount, 10.0);
    // A malformed amount refuses the whole request.
    let malformed: Vec<Vec<Option<f64>>> = vec![vec![None]];
    assert!(form.build_transfer_request(&malformed).is_none());
}

#[test]
fn request_needs_a_sender_and_something_to_send() {
    let data = wallet_data();
    let form = CreateTransaction::from_recipient(addr("friend"));
    let parsed: Vec<Vec<Option<f64>>> = vec![vec![]];
    assert!(form.build_transfer_request(&parsed).is_none());
    let mut form = CreateTransaction::new(Some(account(0, "me")), None);
    form.update(Message::SelectRecipient(0), &data);
    form.update(Message::ChooseRecipientMessage(add_recipient::Message::SelectRadioButton(addr("friend"))), &data);
    form.update(Message::ChooseRecipientMessage(add_recipient::Message::Submit), &data);
    assert!(form.build_transfer_request(&parsed).is_none());
}

#[test]
fn submitting_takes_the_password_along() {
    let data = wallet_data();
    let mut form = form_with_assets(&data);
    form.update(Message::InputPassword("pw-1234".to_string()), &data);
    let parsed: Vec<Vec<Option<f64>>> = vec![vec![Some(10.0)]];
    // No recipient address yet: refused, password kept.
    assert!(matches!(form.submit_transaction(&data, &parsed), Submission::Rejected(t) if t == INCOMPLETE_FORM));
    assert_eq!(form.password.as_str(), "pw-1234");
    form.update(Message::SelectRecipient(0), &data);
    form.update(Message::ChooseRecipientMessage(add_recipient::Message::SelectRadioButton(addr("friend"))), &data);
    form.update(Message::ChooseRecipientMessage(add_recipient::Message::Submit), &data);
    assert_eq!(form.update(Message::SubmitTransaction, &data), TransactionAction::Submit);
    match form.submit_transaction(&data, &parsed) {
        Submission::Ready { request, account, password } => {
            assert_eq!(request.transfers.len(), 1);
            assert_eq!(account.name, "Account 0");
            assert_eq!(password.as_str(), "pw-1234");
        }
        Submission::Rejected(t) => panic!("refused: {}", t),
    }
    assert!(form.password.is_empty());
}

#[test]
fn unknown_sender_is_refused() {
    let data = wallet_data();
    let mut form = form_with_assets(&data);
    form.update(Message::SelectAccount(account(5, "stranger")), &data);
    form.update(Message::SelectRecipient(0), &data);
    form.update(Message::ChooseRecipientMessage(add_recipient::Message::SelectRadioButton(addr("friend"))), &data);
    form.update(Message::ChooseRecipientMessage(add_recipient::Message::Submit), &data);
    let parsed: Vec<Vec<Option<f64>>> = vec![vec![Some(10.0)]];
    assert!(matches!(form.submit_transaction(&data, &parsed), Submission::Rejected(t) if t == UNKNOWN_SENDER));
}

#[test]
fn message_field_toggles() {
    let data = wallet_data();
    let mut form = CreateTransaction::new(None, None);
    form.update(Message::TextFieldMessage("ignored".to_string()), &data);
    assert!(form.text_field.is_none());
    form.update(Message::ToggleTextField, &data);
    assert_eq!(form.text_field.as_deref(), Some(""));
    form.update(Message::TextFieldMessage("thanks".to_string()), &data);
    assert_eq!(form.text_field.as_deref(), Some("thanks"));
    form.update(Message::ToggleTextField, &data);
    assert!(form.text_field.is_none());
}

#[test]
fn review_lists_sender_recipient_and_amounts() {
    let data = wallet_data();
    let mut form = form_with_assets(&data);
    // Only the sender so far: nothing to review.
    assert!(form.review_summary().is_none());
    form.update(Message::SelectRecipient(0), &data);
    form.update(Message::ChooseRecipientMessage(add_recipient::Message::SelectRadioButton(addr("friend"))), &data);
    form.update(Message::ChooseRecipientMessage(add_recipient::Message::Submit), &data);
    let lines = form.review_summary().expect("a review");
    assert_eq!(lines.len(), 3);
    assert!(matches!(&lines[0], ReviewLine::From(a) if a.address.0 == "me"));
    assert!(matches!(&lines[1], ReviewLine::To(a) if a.0 == "friend"));
    assert!(matches!(&lines[2], ReviewLine::Asset { amount, symbol } if amount == "10" && symbol == "XRD"));
    let empty = CreateTransaction::new(Some(account(0, "me")), None);
    assert!(empty.review_summary().is_none());
}

#[test]
fn asset_screen_lists_and_filters_tokens() {
    let data = wallet_data();
    let mut screen = AddAssets::new(addr("me"), 0, Selection::new());
    let mut recipients = vec![Recipient::new(None)];
    let rows = screen.token_rows(&data);
    assert_eq!(rows.len(), 2);
    assert_eq!(rows[0].resource.symbol, "XRD");
    assert_eq!(rows[0].balance, "100");
    assert!(!rows[0].checked);
    screen.update(add_assets::Message::FilterInput("OCI".to_string()), &mut recipients, &data);
    assert_eq!(screen.filter, "oci");
    let rows = screen.token_rows(&data);
    assert_eq!(rows.len(), 1);
    assert_eq!(rows[0].resource.symbol, "OCI");
    screen.update(add_assets::Message::FilterInput(String::new()), &mut recipients, &data);
    screen.update(add_assets::Message::SelectAllTokens, &mut recipients, &data);
    assert!(screen.select_all);
    assert_eq!(screen.selected.len(), 2);
    screen.update(add_assets::Message::InputMaxSelected, &mut recipients, &data);
    assert_eq!(screen.selected.get(&res("oci")).unwrap().1, "2.5");
    let rows = screen.token_rows(&data);
    assert!(rows.iter().all(|r| r.checked));
    assert!(screen.submit_enabled(&rows, &vec![false, false]));
    assert!(!screen.submit_enabled(&rows, &vec![false, true]));
    screen.update(add_assets::Message::UnselectAsset(res("xrd")), &mut recipients, &data);
    assert!(!screen.select_all);
    screen.update(add_assets::Message::UnselectAllTokens, &mut recipients, &data);
    assert!(screen.selected.is_empty());
    assert!(!screen.submit_enabled(&screen.token_rows(&data), &vec![false, false]));
    screen.update(add_assets::Message::SetTab(AssetTab::NFTs), &mut recipients, &data);
    assert_eq!(screen.tab, AssetTab::NFTs);
}

#[test]
fn max_amount_for_a_token_not_held_is_zero() {
    let data = wallet_data();
    let mut screen = AddAssets::new(addr("me"), 0, Selection::new());
    let mut recipients = vec![Recipient::new(None)];
    screen.update(add_assets::Message::SelectAsset(res("elsewhere"), "ELS".to_string()), &mut recipients, &data);
    screen.update(add_assets::Message::InputMaxSelected, &mut recipients, &data);
    assert_eq!(screen.selected.get(&res("elsewhere")).unwrap().1, NO_BALANCE);
    // Typing a number chooses a token; clearing it unchooses it.
    screen.update(add_assets::Message::InputAmount(res("oci"), "OCI".to_string(), number("1")), &mut recipients, &data);
    assert_eq!(screen.selected.get(&res("oci")).unwrap().1, "1");
    screen.update(add_assets::Message::InputAmount(res("oci"), "OCI".to_string(), number("")), &mut recipients, &data);
    assert!(!screen.selected.contains_key(&res("oci")));
    let action = screen.update(add_assets::Message::SubmitAssets, &mut recipients, &data);
    assert_eq!(action, AddAssetsAction::ShowTransaction);
    assert_eq!(recipients[0].resources.len(), 1);
    assert!(screen.selected.is_empty());
}

#[test]
fn first_recipient_screen_keeps_typed_text() {
    let mut screen = ChooseRecipient::new(0);
    let mut recipients = vec![Recipient::new(None)];
    screen.update(choose_recipient::Message::RecipientInput("acc...".to_string()), &mut recipients);
    assert_eq!(screen.recipient_input, "acc...");
    screen.update(choose_recipient::Message::SelectRadioButton(addr("friend")), &mut recipients);
    let action = screen.update(choose_recipient::Message::Submit, &mut recipients);
    assert_eq!(action, AddRecipientAction::ShowTransaction);
    assert_eq!(recipients[0].address.as_ref().unwrap().0, "friend");
    assert!(screen.chosen_account.is_none());
}

#[test]
fn typed_address_is_chosen_or_unchosen() {
    let mut screen = AddRecipient::new(0, Some(addr("me")));
    let mut recipients = vec![Recipient::new(None)];
    screen.update(
        add_recipient::Message::RecipientInput(AddressInput { text: "friend".to_string(), parsed: Some(addr("friend")) }),
        &mut recipients,
    );
    assert_eq!(screen.chosen_account.as_ref().unwrap().0, "friend");
    screen.update(
        add_recipient::Message::RecipientInput(AddressInput { text: "fri".to_string(), parsed: None }),
        &mut recipients,
    );
    assert!(screen.chosen_account.is_none());
}

#[test]
fn first_recipient_without_address_offers_no_removal() {
    assert!(!offers_removal(0, &Recipient::new(None)));
    assert!(offers_removal(0, &Recipient::new(Some(addr("friend")))));
    assert!(offers_removal(1, &Recipient::new(None)));
}

#[test]
fn blank_recipient_refuses_the_request() {
    let data = wallet_data();
    let mut form = form_with_assets(&data);
    form.update(Message::SelectRecipient(0), &data);
    form.update(Message::ChooseRecipientMessage(add_recipient::Message::SelectRadioButton(addr("friend"))), &data);
    form.update(Message::ChooseRecipientMessage(add_recipient::Message::Submit), &data);
    let parsed: Vec<Vec<Option<f64>>> = vec![vec![Some(10.0)]];
    assert!(form.build_transfer_request(&parsed).is_some());
    form.update(Message::AddRecipient, &data);
    let parsed: Vec<Vec<Option<f64>>> = vec![vec![Some(10.0)], vec![]];
    assert!(form.build_transfer_request(&parsed).is_none());
    assert!(matches!(form.submit_transaction(&data, &parsed), Submission::Rejected(t) if t == INCOMPLETE_FORM));
}

#[test]
fn create_button_needs_sender_and_password() {
    let data = wallet_data();
    let mut form = CreateTransaction::new(None, None);
    form.update(Message::InputPassword("pw".to_string()), &data);
    assert!(!form.can_submit());
    form.update(Message::SelectAccount(account(0, "me")), &data);
    assert!(form.can_submit());
    form.update(Message::InputPassword(String::new()), &data);
    assert!(!form.can_submit());
}

#[test]
fn radio_screen_marks_the_chosen_account() {
    let mut screen = ChooseRecipient::new(0);
    let mut recipients = vec![Recipient::new(None)];
    let accounts = vec![account(0, "me"), account(1, "friend")];
    assert!(screen.accounts_clickable());
    screen.update(choose_recipient::Message::SelectRadioButton(addr("friend")), &mut recipients);
    let listed = screen.offered(&accounts);
    assert_eq!(listed.len(), 2);
    assert!(!listed[0].1);
    assert!(listed[1].1);
    screen.update(choose_recipient::Message::RecipientInput("x".to_string()), &mut recipients);
    assert!(!screen.accounts_clickable());
}

#[test]
fn added_asset_without_amount_changes_no_request() {
    let data = wallet_data();
    let mut form = form_with_assets(&data);
    form.update(Message::SelectRecipient(0), &data);
    form.update(Message::ChooseRecipientMessage(add_recipient::Message::SelectRadioButton(addr("friend"))), &data);
    form.update(Message::ChooseRecipientMessage(add_recipient::Message::Submit), &data);
    let before = form.build_transfer_request(&vec![vec![Some(10.0)]]).unwrap();
    form.recipients[0].resources.insert(res("oci"), ("OCI".to_string(), String::new()));
    let after = form.build_transfer_request(&vec![vec![Some(10.0), None]]).unwrap();
    assert_eq!(before.transfers.len(), after.transfers.len());
    assert_eq!(after.transfers[0].fungibles.len(), 1);
    assert_eq!(after.transfers[0].fungibles[0].resource.0, "xrd");
}

#[test]
fn submit_needs_a_chosen_account() {
    let mut recipients = vec![Recipient::new(None)];
    let mut screen = AddRecipient::new(0, Some(addr("me")));
    assert!(!screen.submit_enabled());
    screen.update(add_recipient::Message::SelectRadioButton(addr("friend")), &mut recipients);
    assert!(screen.submit_enabled());
    screen.update(add_recipient::Message::Submit, &mut recipients);
    assert!(!screen.submit_enabled());

    let mut radio = ChooseRecipient::new(0);
    assert!(!radio.submit_enabled());
    radio.update(choose_recipient::Message::SelectRadioButton(addr("friend")), &mut recipients);
    assert!(radio.submit_enabled());
}

#[test]
fn finished_submission_is_reported() {
    match submission_outcome(Ok("txid_abc".to_string())) {
        AppError::NonFatal(text) => {
            assert_eq!(text, "Transaction submitted: txid_abc");
            assert!(text.starts_with(TRANSACTION_SUBMITTED));
        }
        AppError::Fatal(_) => panic!("a sent transaction is no fatal error"),
    }
    match submission_outcome(Err(AppError::Fatal("gateway down".to_string()))) {
        AppError::Fatal(text) => assert_eq!(text, "gateway down"),
        AppError::NonFatal(_) => panic!("the error is passed on as it came"),
    }
}
