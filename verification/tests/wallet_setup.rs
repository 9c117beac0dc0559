use ravault_ui::setup::{
    NewWallet, NewWalletStage, SeedPhrase, Setup, SetupAction, SetupMessage, WalletMessage,
    EMPTY_ACCOUNT_NAME, INVALID_PASSWORD_LENGTH, INVALID_SEED_PHRASE, NON_ASCII_CHARACTERS,
    PASSWORD_MISMATCH, SEED_WORDS,
};

const GOOD_PASSWORD: &str = "correct horse battery";

fn wallet(setup: &Setup) -> &NewWallet {
    match setup {
        Setup::NewWallet(w) => w,
        Setup::SelectCreation => panic!("no wallet creation in progress"),
    }
}

fn send(setup: &mut Setup, m: WalletMessage) -> SetupAction {
    SetupMessage::NewWalletMessage(m).process(setup)
}

#[test]
fn seed_phrase_joins_its_words() {
    let mut p = SeedPhrase::new();
    p.update_word(0, "abandon");
    p.update_word(1, "art");
    p.update_word(SEED_WORDS, "ignored");
    let phrase = p.phrase();
    assert!(phrase.starts_with("abandon art "));
    assert_eq!(phrase.len(), "abandon art".len() + SEED_WORDS - 2);
}

#[test]
fn password_rules_on_submit() {
    let mut setup = Setup::SelectCreation;
    SetupMessage::NewWallet.process(&mut setup);
    assert!(wallet(&setup).mnemonic.is_some());
    send(&mut setup, WalletMessage::UpdatePassword("short".to_string()));
    send(&mut setup, WalletMessage::SubmitPassword);
    assert_eq!(wallet(&setup).notification, INVALID_PASSWORD_LENGTH);
    assert_eq!(wallet(&setup).stage, NewWalletStage::EnterPassword);
    send(&mut setup, WalletMessage::UpdatePassword("pässwörd with umlauts".to_string()));
    send(&mut setup, WalletMessage::SubmitPassword);
    assert_eq!(wallet(&setup).notification, NON_ASCII_CHARACTERS);
    send(&mut setup, WalletMessage::UpdatePassword("x".repeat(65)));
    send(&mut setup, WalletMessage::SubmitPassword);
    assert_eq!(wallet(&setup).notification, INVALID_PASSWORD_LENGTH);
    send(&mut setup, WalletMessage::UpdatePassword(GOOD_PASSWORD.to_string()));
    send(&mut setup, WalletMessage::SubmitPassword);
    assert_eq!(wallet(&setup).stage, NewWalletStage::VerifyPassword);
    assert_eq!(wallet(&setup).notification, "");
}

#[test]
fn back_undoes_password_submission() {
    let mut setup = Setup::SelectCreation;
    SetupMessage::NewWallet.process(&mut setup);
    send(&mut setup, WalletMessage::UpdatePassword(GOOD_PASSWORD.to_string()));
    send(&mut setup, WalletMessage::SubmitPassword);
    send(&mut setup, WalletMessage::UpdateVerificationPassword("typo".to_string()));
    SetupMessage::Back.process(&mut setup);
    let w = wallet(&setup);
    assert_eq!(w.stage, NewWalletStage::EnterPassword);
    assert!(w.verify_password.is_empty());
    assert_eq!(w.password.as_str(), GOOD_PASSWORD);
    SetupMessage::Back.process(&mut setup);
    assert!(matches!(setup, Setup::SelectCreation));
}

#[test]
fn generated_wallet_happy_path() {
    let mut setup = Setup::SelectCreation;
    SetupMessage::NewWallet.process(&mut setup);
    send(&mut setup, WalletMessage::UpdatePassword(GOOD_PASSWORD.to_string()));
    send(&mut setup, WalletMessage::SubmitPassword);
    send(&mut setup, WalletMessage::UpdateVerificationPassword("wrong one".to_string()));
    send(&mut setup, WalletMessage::VerifiPassword);
    assert_eq!(wallet(&setup).notification, PASSWORD_MISMATCH);
    send(&mut setup, WalletMessage::UpdateVerificationPassword(GOOD_PASSWORD.to_string()));
    send(&mut setup, WalletMessage::VerifiPassword);
    assert_eq!(wallet(&setup).stage, NewWalletStage::EnterAccountName);
    send(&mut setup, WalletMessage::SubmitAccName);
    assert_eq!(wallet(&setup).notification, EMPTY_ACCOUNT_NAME);
    send(&mut setup, WalletMessage::UpdateAccName("Main".to_string()));
    send(&mut setup, WalletMessage::SubmitAccName);
    assert_eq!(wallet(&setup).stage, NewWalletStage::ViewSeedPhrase);
    send(&mut setup, WalletMessage::VerifySeedPhrase);
    assert_eq!(wallet(&setup).stage, NewWalletStage::VerifySeedPhrase);
    assert_eq!(send(&mut setup, WalletMessage::Finalize), SetupAction::CreateWallet);
}

#[test]
fn generated_mnemonic_has_24_words() {
    let mut w = NewWallet::new_with_mnemonic();
    let (m, text) = w.take_mnemonic().expect("a generated phrase");
    assert_eq!(m.phrase(), text);
    assert_eq!(text.split(' ').count(), 24);
    let again = bip39::Mnemonic::from_phrase(&text, bip39::Language::English).unwrap();
    assert_eq!(again.phrase(), text);
    assert!(w.take_mnemonic().is_none());
}

#[test]
fn restored_wallet_needs_a_valid_phrase() {
    let mut setup = Setup::SelectCreation;
    SetupMessage::FromSeed.process(&mut setup);
    assert!(wallet(&setup).mnemonic.is_none());
    send(&mut setup, WalletMessage::UpdateAccName("Main".to_string()));
    send(&mut setup, WalletMessage::SubmitAccName);
    assert_eq!(wallet(&setup).stage, NewWalletStage::EnterSeedPhrase);
    let mut words: Vec<String> = vec!["abandon".to_string(); 23];
    words.push("zoo".to_string());
    send(&mut setup, WalletMessage::UpdateInputSeed((0, words)));
    assert_eq!(send(&mut setup, WalletMessage::Finalize), SetupAction::Idle);
    assert_eq!(wallet(&setup).notification, INVALID_SEED_PHRASE);
    send(&mut setup, WalletMessage::UpdateInputSeed((23, vec!["art".to_string()])));
    assert_eq!(send(&mut setup, WalletMessage::Finalize), SetupAction::CreateWallet);
    let mut expected = vec!["abandon"; 23];
    expected.push("art");
    let (m, text) = wallet(&setup).mnemonic.as_ref().unwrap();
    assert_eq!(text, &expected.join(" "));
    assert_eq!(m.phrase(), expected.join(" "));
}

#[test]
fn pasted_words_fill_consecutive_slots() {
    let mut w = NewWallet::new_without_mnemonic();
    w.update_input_seed(22, vec!["one".to_string(), "two".to_string(), "three".to_string()]);
    let phrase = w.seed_phrase.phrase();
    assert!(phrase.ends_with(" one two"));
}

#[test]
fn parsed_phrase_is_taken_or_refused() {
    let mut w = NewWallet::new_without_mnemonic();
    assert!(!w.accept_parsed_phrase(None));
    assert_eq!(w.notification, INVALID_SEED_PHRASE);
    assert!(w.mnemonic.is_none());
    let mut words = vec!["abandon"; 23];
    words.push("art");
    let m = bip39::Mnemonic::from_phrase(&words.join(" "), bip39::Language::English).unwrap();
    let text = m.phrase().to_string();
    assert!(w.accept_parsed_phrase(Some((m, text.clone()))));
    assert_eq!(w.mnemonic.as_ref().unwrap().1, text);
    let taken = w.take_mnemonic().unwrap();
    assert_eq!(taken.0.phrase(), text);
    assert!(w.mnemonic.is_none());
}
