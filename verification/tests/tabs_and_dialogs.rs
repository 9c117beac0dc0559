use ravault_ui::app_data::AppData;
use ravault_ui::app_view::{ActiveTab, AppView, AppViewAction, Message, TabId};
use ravault_ui::common::{CommonAction, CommonMessage};
use ravault_ui::history::{HistoryAction, HistoryView, LOADING, NO_TRANSACTIONS};
use ravault_ui::keyed::KeyedList;
use ravault_ui::login::{apply_login_result, AppState, LoginAction, LoginMessage, LoginScreen};
use ravault_ui::model::{
    Account, AccountAddress, AppError, FungibleAsset, GatewayConfig, NameVariant, Persona,
    PersonaData, PersonaName, ResourceAddress, Transaction,
};
use ravault_ui::overlays::add_account::{self, next_account_numbers, AddAccount, Screen, EMPTY_NAME_NOTICE};
use ravault_ui::overlays::overlay::{
    AddAccountMessage, Overlay, OverlayAction, OverlayMessage, ReceiveMessage, SpawnOverlay,
};
use ravault_ui::overlays::receive::{self, Notification, Receive, ReceiveAction, COPIED_NOTICE};
use ravault_ui::personas::{
    self, personas_by_id, CardBody, PersonaEdit, PersonasAction, PersonasView, LABEL_AND_PASSWORD_NEEDED, PERSONA_CREATED,
    PERSONA_DATA_SAVED,
};
use ravault_ui::secret::Password;
use ravault_ui::settings::{is_current_gateway, Action, SettingsView};
use ravault_ui::transaction::create_transaction;
use ravault_ui::window::MainWindow;

fn addr(s: &str) -> AccountAddress {
    AccountAddress(s.to_string())
}

fn account(id: usize, a: &str) -> Account {
    Account { id, name: format!("Account {}", id), address: addr(a), derivation_index: id as u32, balances_last_updated: None }
}

fn persona(address: &str) -> Persona {
    Persona {
        id: 0,
        identity_address: address.to_string(),
        label: "Work".to_string(),
        persona_data: PersonaData {
            name: Some(PersonaName { given: "Ada".to_string(), family: "Lovelace".to_string(), variant: NameVariant::Eastern }),
            email_addresses: vec!["ada@example.com".to_string(), "second@example.com".to_string()],
            phone_numbers: vec![],
        },
    }
}

#[test]
fn add_account_dialog_needs_a_name() {
    let mut dialog = AddAccount::new();
    dialog.update(add_account::Message::Continue);
    assert_eq!(dialog.notification, EMPTY_NAME_NOTICE);
    assert_eq!(dialog.view, Screen::InputAccountName);
    dialog.update(add_account::Message::InputAccountName("Savings".to_string()));
    assert!(dialog.notification.is_empty());
    dialog.update(add_account::Message::Continue);
    assert_eq!(dialog.view, Screen::InputPassword);
    dialog.update(add_account::Message::InputPassword("pw".to_string()));
    assert_eq!(dialog.password.as_str(), "pw");
    dialog.update(add_account::Message::Back);
    assert_eq!(dialog.view, Screen::InputAccountName);
    dialog.report_create_failure("no key");
    assert_eq!(dialog.notification, "Unable to create account: no key");
    dialog.report_save_failure("disk full");
    assert_eq!(dialog.notification, "Unable to save account to database: disk full");
}

#[test]
fn next_account_numbers_are_past_the_largest() {
    assert_eq!(next_account_numbers(&vec![]), (0, 0));
    let accounts = vec![account(4, "a"), account(1, "b")];
    assert_eq!(next_account_numbers(&accounts), (5, 5));
}

#[test]
fn receive_dialog_copies_the_address() {
    let mut dialog = Receive::new(addr("acc_1"));
    assert!(matches!(dialog.notification, Notification::Hidden));
    let action = dialog.update(receive::Message::CopyAddress("acc_1".to_string()));
    assert!(matches!(action, ReceiveAction::CopyToClipboard(ref t) if t == "acc_1"));
    assert!(matches!(dialog.notification, Notification::Success(ref t) if t == COPIED_NOTICE));
}

#[test]
fn first_version_dialog_messages() {
    let mut overlay = Some(Overlay::spawn(SpawnOverlay::AddAccount));
    OverlayMessage::AddAccountMessage(AddAccountMessage::Next).update(&mut overlay);
    assert!(matches!(&overlay, Some(Overlay::AddAccount(a)) if a.notification == EMPTY_NAME_NOTICE));
    let action = OverlayMessage::AddAccountMessage(AddAccountMessage::Submit).update(&mut overlay);
    assert!(matches!(action, OverlayAction::SubmitAccount));
    // A message for the other dialog is dropped.
    let action = ReceiveMessage::CopyAddress("x".to_string()).update(&mut overlay);
    assert!(matches!(action, OverlayAction::Idle));
    let mut none: Option<Overlay> = None;
    assert!(matches!(AddAccountMessage::Next.update(&mut none), OverlayAction::Idle));
}

#[test]
fn persona_create_needs_label_and_password() {
    let personas: KeyedList<String, Persona> = KeyedList::new();
    let mut tab = PersonasView::new();
    assert!(!tab.create_enabled());
    let action = tab.update(personas::Message::Create, &personas);
    assert!(matches!(action, PersonasAction::Notify(ref t) if t == LABEL_AND_PASSWORD_NEEDED));
    tab.update(personas::Message::InputLabel("Work".to_string()), &personas);
    tab.update(personas::Message::InputPassword("secret".to_string()), &personas);
    assert!(tab.create_enabled());
    match tab.update(personas::Message::Create, &personas) {
        PersonasAction::CreatePersona { label, password } => {
            assert_eq!(label, "Work");
            assert_eq!(password.as_str(), "secret");
        }
        _ => panic!("creation expected"),
    }
    assert!(tab.label.is_empty());
    assert!(tab.password.is_empty());
}

#[test]
fn persona_created_or_failed() {
    let personas: KeyedList<String, Persona> = KeyedList::new();
    let mut tab = PersonasView::new();
    match tab.update(personas::Message::Created(Ok(persona("identity_1"))), &personas) {
        PersonasAction::Register { persona, notice } => {
            assert_eq!(persona.identity_address, "identity_1");
            assert_eq!(notice, format!("{}identity_1", PERSONA_CREATED));
        }
        _ => panic!("registration expected"),
    }
    let action = tab.update(personas::Message::Created(Err(AppError::NonFatal("boom".to_string()))), &personas);
    assert!(matches!(action, PersonasAction::Failed(AppError::NonFatal(ref t)) if t == "boom"));
}

#[test]
fn persona_edit_saves_what_was_typed() {
    let mut personas: KeyedList<String, Persona> = KeyedList::new();
    personas.insert("identity_1".to_string(), persona("identity_1"));
    let mut tab = PersonasView::new();
    tab.update(personas::Message::EditGiven("ignored".to_string()), &personas);
    assert!(tab.editing.is_none());
    tab.update(personas::Message::EditPersona("identity_1".to_string()), &personas);
    let e = tab.editing.as_ref().unwrap();
    assert_eq!(e.given, "Ada");
    assert_eq!(e.email, "ada@example.com");
    assert_eq!(e.phone, "");
    tab.update(personas::Message::EditFamily(String::new()), &personas);
    tab.update(personas::Message::EditPhone("+41 1".to_string()), &personas);
    tab.update(personas::Message::EditEmail(String::new()), &personas);
    match tab.update(personas::Message::SaveData, &personas) {
        PersonasAction::SaveData { identity_address, data } => {
            assert_eq!(identity_address, "identity_1");
            let name = data.name.unwrap();
            assert_eq!(name.given, "Ada");
            assert_eq!(name.family, "");
            assert_eq!(name.variant, NameVariant::Western);
            assert!(data.email_addresses.is_empty());
            assert_eq!(data.phone_numbers, vec!["+41 1".to_string()]);
        }
        _ => panic!("save expected"),
    }
    assert!(tab.editing.is_none());
    tab.update(personas::Message::EditPersona("unknown".to_string()), &personas);
    assert!(tab.editing.is_none());
    tab.update(personas::Message::EditPersona("identity_1".to_string()), &personas);
    tab.update(personas::Message::CancelEdit, &personas);
    assert!(tab.editing.is_none());
}

#[test]
fn persona_edit_round_trip() {
    let edit = PersonaEdit {
        identity_address: "id".to_string(),
        given: String::new(),
        family: String::new(),
        email: "e@x".to_string(),
        phone: String::new(),
    };
    let data = edit.to_persona_data();
    assert!(data.name.is_none());
    let saved = Persona { id: 0, identity_address: "id".to_string(), label: String::new(), persona_data: data };
    let again = PersonaEdit::from_persona(&saved);
    assert_eq!(again.email, "e@x");
    assert_eq!(again.given, "");
    assert_eq!(again.identity_address, "id");
}

#[test]
fn history_loads_for_the_chosen_account() {
    let mut h = HistoryView::new();
    let action = h.update(ravault_ui::history::Message::SelectAccount(account(0, "acc_1")));
    assert!(matches!(action, HistoryAction::LoadTransactions(ref a) if a.0 == "acc_1"));
    assert_eq!(h.status.as_deref(), Some(LOADING));
    h.update(ravault_ui::history::Message::Loaded(Ok(vec![])));
    assert_eq!(h.status.as_deref(), Some(NO_TRANSACTIONS));
    let tx = Transaction { transaction_address: "txid_1".to_string(), timestamp: 1, balance_changes: 2 };
    h.update(ravault_ui::history::Message::Loaded(Ok(vec![tx])));
    assert!(h.status.is_none());
    assert_eq!(h.transactions.len(), 1);
    h.update(ravault_ui::history::Message::Loaded(Err("database closed".to_string())));
    assert_eq!(h.status.as_deref(), Some("database closed"));
    assert_eq!(h.transactions.len(), 1);
}

#[test]
fn login_typing_and_fatal_errors() {
    let mut state = AppState::Locked(LoginScreen { password: Password::new() });
    assert_eq!(LoginMessage::TextInputChanged("hunter2".to_string()).process(&mut state), LoginAction::Idle);
    assert!(matches!(&state, AppState::Locked(s) if s.password.as_str() == "hunter2"));
    assert_eq!(LoginMessage::Login.process(&mut state), LoginAction::Login);
    apply_login_result(&mut state, Err(AppError::NonFatal("retry".to_string())));
    assert!(matches!(state, AppState::Locked(_)));
    apply_login_result(&mut state, Err(AppError::Fatal("corrupt".to_string())));
    assert!(matches!(&state, AppState::Error(t) if t == "corrupt"));
    assert_eq!(LoginMessage::Login.process(&mut state), LoginAction::Idle);
}

#[test]
fn main_screen_tabs_and_dialogs() {
    let mut data = AppData::new();
    let personas: KeyedList<String, Persona> = KeyedList::new();
    let mut view = AppView::new();
    assert!(matches!(view.active_tab, ActiveTab::Accounts(_)));
    view.update(Message::SelectTab(TabId::Transfer), &data, &personas);
    assert!(matches!(view.active_tab, ActiveTab::Transfer(_)));
    view.update(Message::SelectTab(TabId::Personas), &data, &personas);
    assert!(matches!(view.active_tab, ActiveTab::Personas(_)));
    // A message for another tab is dropped.
    let action = view.update(Message::TransactionMessage(create_transaction::Message::AddRecipient), &data, &personas);
    assert!(matches!(action, AppViewAction::Idle));
    view.update(Message::SpawnOverlay(SpawnOverlay::Receive(addr("acc_1"))), &data, &personas);
    assert!(matches!(&view.overlay, Some(Overlay::Receive(r)) if r.address.0 == "acc_1"));
    view.update(Message::CloseOverlay, &data, &personas);
    assert!(view.overlay.is_none());
    let from = Some(account(0, "acc_1"));
    assert!(matches!(view.update(Message::NewTransaction(from.clone()), &data, &personas), AppViewAction::NewTransaction(Some(_))));

    let mut held = KeyedList::new();
    held.insert(ResourceAddress("xrd".to_string()), FungibleAsset { resource_address: ResourceAddress("xrd".to_string()), amount: "10".to_string() });
    held.insert(ResourceAddress("bad".to_string()), FungibleAsset { resource_address: ResourceAddress("bad".to_string()), amount: "n/a".to_string() });
    data.fungibles.insert(addr("acc_1"), held);
    view.new_transaction(from, &data, &vec![true, false]);
    match &view.active_tab {
        ActiveTab::Transfer(t) => {
            assert_eq!(t.resource_amounts.len(), 1);
            assert_eq!(t.resource_amounts.get(&ResourceAddress("xrd".to_string())).unwrap(), "10");
            assert_eq!(t.from_account.as_ref().unwrap().address.0, "acc_1");
        }
        _ => panic!("transfer expected"),
    }
}

#[test]
fn common_messages() {
    let mut view = AppView::new();
    assert!(matches!(CommonMessage::Notify("hello".to_string()).process(&mut view), CommonAction::Idle));
    assert_eq!(view.notification.as_deref(), Some("hello"));
    assert!(matches!(CommonMessage::CopyToClipBoard("x".to_string()).process(&mut view), CommonAction::CopyToClipboard(ref t) if t == "x"));
    assert!(matches!(CommonMessage::PerformLogin(vec![0u8; 32]).process(&mut view), CommonAction::Login));
}

#[test]
fn settings_marks_the_current_gateway() {
    let current = GatewayConfig { network: "Mainnet".to_string(), url: "https://mainnet.radixdlt.com".to_string() };
    let other = GatewayConfig { network: "Stokenet".to_string(), url: "https://stokenet.radixdlt.com".to_string() };
    assert!(is_current_gateway(&current, &current));
    assert!(!is_current_gateway(&other, &current));
    let _view = SettingsView::new();
    let _window = MainWindow;
    assert!(matches!(Action::SetDeveloperMode(true), Action::SetDeveloperMode(true)));
}

#[test]
fn receive_dialog_copies_keep_banner_and_address() {
    let mut dialog = Receive::new(addr("acc_9"));
    dialog.update(receive::Message::CopyAddress("acc_9".to_string()));
    let copy = dialog.clone();
    assert_eq!(copy.address.0, "acc_9");
    assert!(matches!(copy.notification, Notification::Success(ref t) if t == COPIED_NOTICE));
}

#[test]
fn persona_cards_show_shared_data_or_the_editor() {
    let mut personas: KeyedList<String, Persona> = KeyedList::new();
    let mut second = persona("identity_2");
    second.id = 7;
    second.persona_data.name = None;
    second.persona_data.phone_numbers = vec!["+1 555".to_string()];
    personas.insert("identity_2".to_string(), second);
    let mut first = persona("identity_1");
    first.id = 3;
    personas.insert("identity_1".to_string(), first);
    assert_eq!(personas_by_id(&personas), vec![1, 0]);

    let mut tab = PersonasView::new();
    let card = tab.persona_card(personas.get(&"identity_1".to_string()).unwrap());
    assert_eq!(card.label, "Work");
    match card.body {
        CardBody::Shared(lines) => assert_eq!(
            lines,
            vec![
                "Name: Ada Lovelace".to_string(),
                "Email: ada@example.com".to_string(),
                "Email: second@example.com".to_string(),
            ]
        ),
        CardBody::Editing => panic!("not edited"),
    }
    let card = tab.persona_card(personas.get(&"identity_2".to_string()).unwrap());
    assert!(matches!(card.body, CardBody::Shared(ref l) if l.len() == 3 && l[2] == "Phone: +1 555"));
    tab.update(personas::Message::EditPersona("identity_1".to_string()), &personas);
    let card = tab.persona_card(personas.get(&"identity_1".to_string()).unwrap());
    assert!(matches!(card.body, CardBody::Editing));
}

#[test]
fn saved_persona_data_is_reported() {
    match PersonasView::data_saved(Ok(())) {
        PersonasAction::Notify(text) => {
            assert_eq!(text, "Persona data saved");
            assert_eq!(text, PERSONA_DATA_SAVED);
        }
        _ => panic!("a save that worked is reported"),
    }
    let action = PersonasView::data_saved(Err(AppError::NonFatal("disk full".to_string())));
    assert!(matches!(action, PersonasAction::Failed(AppError::NonFatal(ref t)) if t == "disk full"));
}
