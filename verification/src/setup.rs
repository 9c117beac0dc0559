//! Creating a wallet: the steps of the setup screens (password, its confirmation, the first
//! account's name, the recovery phrase) and what each message does to them.
use vstd::prelude::*;

use bip39::{Language, Mnemonic, MnemonicType};

use vstd::string::StrSliceExecFns;
use vstd::utf8::is_ascii_chars;

use crate::secret::{wipe, Password};
use crate::text::texts_equal;

verus! {

#[verifier::external_type_specification]
#[verifier::external_body]
pub struct ExMnemonic(Mnemonic);

/// What `bip39`'s `Mnemonic::from_phrase` makes of a phrase in English, which depends on the
/// phrase alone: the text that the mnemonic keeps (the words split at white space, each in
/// Unicode normal form NFKD, joined by single spaces) when every word is in the English list,
/// the word count is one that BIP-39 allows and the checksum holds; nothing otherwise.
pub uninterp spec fn bip39_parse(phrase: Seq<char>) -> Option<Seq<char>>;

/// Whether `bip39` accepts a phrase in English.
pub open spec fn valid_english_mnemonic(phrase: Seq<char>) -> bool {
    bip39_parse(phrase) is Some
}

/// The number of spaces in a text.
pub open spec fn spaces(s: Seq<char>) -> nat
    decreases s.len(),
{
    if s.len() == 0 {
        0
    } else {
        spaces(s.drop_last()) + if s.last() == ' ' {
            1nat
        } else {
            0nat
        }
    }
}

/// A phrase as `Mnemonic::new` makes it for 24 English words: the words joined by single
/// spaces, which `from_phrase` accepts and keeps as it is.
pub open spec fn generated_phrase(p: Seq<char>) -> bool {
    &&& bip39_parse(p) == Some(p)
    &&& spaces(p) == SEED_WORDS - 1
}

/// Calls `bip39::Mnemonic::from_phrase` with the English word list and, on success, gives the
/// mnemonic back with the text it keeps (`Mnemonic::phrase`); the contract names what it
/// decides and keeps, which depends on the phrase alone.
#[verifier::external_body]
fn parse_mnemonic(phrase: &str) -> (r: Option<(Mnemonic, String)>)
    ensures
        match bip39_parse(phrase@) {
            Some(p) => r matches Some((_, text)) && text@ == p,
            None => r is None,
        },
{
    match Mnemonic::from_phrase(phrase, Language::English) {
        Ok(m) => {
            let text = m.phrase().to_string();
            Some((m, text))
        },
        Err(_) => None,
    }
}

/// Calls `bip39::Mnemonic::new` for a random phrase of 24 English words and gives it back with
/// its text (`Mnemonic::phrase`). Which words come out is chance; what holds of every outcome
/// is stated: 24 words of the English list joined by single spaces, with a valid checksum, so
/// that `from_phrase` accepts the text and keeps it as it is.
#[verifier::external_body]
fn generate_mnemonic() -> (r: (Mnemonic, String))
    ensures
        generated_phrase(r.1@),
{
    let m = Mnemonic::new(MnemonicType::Words24, Language::English);
    let text = m.phrase().to_string();
    (m, text)
}

pub const MINIMUM_PASSWORD_LENGTH: usize = 16;

pub const MAXIMUM_PASSWORD_LENGTH: usize = 64;

/// How many words the recovery phrase has.
pub const SEED_WORDS: usize = 24;

/// The words of a recovery phrase as typed in, one slot per word.
pub struct SeedPhrase {
    words: Vec<String>,
}

impl View for SeedPhrase {
    type V = Seq<Seq<char>>;

    closed spec fn view(&self) -> Seq<Seq<char>> {
        self.words@.map_values(|w: String| w@)
    }
}

/// The words joined with single spaces.
pub open spec fn join_words(words: Seq<Seq<char>>) -> Seq<char>
    decreases words.len(),
{
    if words.len() == 0 {
        Seq::empty()
    } else if words.len() == 1 {
        words[0]
    } else {
        join_words(words.drop_last()) + seq![' '] + words.last()
    }
}

impl SeedPhrase {
    pub fn new() -> (r: Self)
        ensures
            r@ == Seq::new(SEED_WORDS as nat, |i: int| Seq::<char>::empty()),
    {
        let mut words: Vec<String> = Vec::new();
        let mut i: usize = 0;
        while i < SEED_WORDS
            invariant
                i <= SEED_WORDS,
                words@.len() == i,
                forall|j: int| 0 <= j < i ==> (#[trigger] words@[j])@ == Seq::<char>::empty(),
            decreases SEED_WORDS - i,
        {
            words.push(String::new());
            i += 1;
        }
        let r = SeedPhrase { words };
        assert(r@ =~= Seq::new(SEED_WORDS as nat, |i: int| Seq::<char>::empty()));
        r
    }

    /// Puts a word into a slot; an index past the last slot changes nothing.
    pub fn update_word(&mut self, index: usize, word: &str)
        ensures
            final(self)@ == if index < old(self)@.len() {
                old(self)@.update(index as int, word@)
            } else {
                old(self)@
            },
    {
        if index < self.words.len() {
            let ghost before = self@;
            let mut w = String::new();
            w.append(word);
            self.words.set(index, w);
            assert(self@ =~= before.update(index as int, word@));
        }
    }

    /// The phrase: the words joined with single spaces.
    pub fn phrase(&self) -> (r: String)
        ensures
            r@ == join_words(self@),
    {
        let mut r = String::new();
        let mut i: usize = 0;
        while i < self.words.len()
            invariant
                i <= self@.len(),
                self@.len() == self.words@.len(),
                r@ == join_words(self@.take(i as int)),
            decreases self@.len() - i,
        {
            if i > 0 {
                r.append(" ");
            }
            r.append(self.words[i].as_str());
            proof {
                reveal_strlit(" ");
                assert(self@.take(i + 1).drop_last() =~= self@.take(i as int));
                assert(self@[i as int] == self.words@[i as int]@);
                if i == 0 {
                    assert(r@ =~= join_words(self@.take(1)));
                } else {
                    assert(r@ =~= join_words(self@.take(i + 1)));
                }
            }
            i += 1;
        }
        assert(self@.take(self@.len() as int) =~= self@);
        r
    }
}

pub const INVALID_PASSWORD_LENGTH: &'static str = "Password must be between 16 and 64 characters long";

pub const NON_ASCII_CHARACTERS: &'static str = "Password contains invalid characters";

pub const EMPTY_ACCOUNT_NAME: &'static str = "Account name can not be empty";

pub const PASSWORD_MISMATCH: &'static str = "Password does not match";

pub const INVALID_SEED_PHRASE: &'static str = "Invalid seed phrase";

pub const KEY_DERIVATION_FAILED: &'static str =
    "Unable to create random value for key derivation, please try again";

/// The screens of wallet creation, in the order they are passed.
#[derive(PartialEq, Eq, Structural, Clone, Copy, Debug)]
pub enum NewWalletStage {
    EnterPassword,
    VerifyPassword,
    EnterAccountName,
    EnterSeedPhrase,
    ViewSeedPhrase,
    VerifySeedPhrase,
}

/// The state of wallet creation.
pub struct NewWallet {
    pub stage: NewWalletStage,
    pub password: Password,
    pub verify_password: Password,
    pub account_name: String,
    /// The recovery phrase with its text: generated for a new wallet, absent until typed in
    /// for a restored one.
    pub mnemonic: Option<(Mnemonic, String)>,
    pub seed_phrase: SeedPhrase,
    pub notification: &'static str,
}

/// Wallet creation as plain values.
pub struct NewWalletView {
    pub stage: NewWalletStage,
    pub password: Seq<char>,
    pub verify_password: Seq<char>,
    pub account_name: Seq<char>,
    /// The text of the recovery phrase that the wallet holds.
    pub mnemonic: Option<Seq<char>>,
    pub seed_phrase: Seq<Seq<char>>,
    pub notification: Seq<char>,
}

/// The text of a held recovery phrase.
pub open spec fn phrase_view(m: Option<(Mnemonic, String)>) -> Option<Seq<char>> {
    match m {
        Some(p) => Some(p.1@),
        None => None,
    }
}

impl View for NewWallet {
    type V = NewWalletView;

    open spec fn view(&self) -> NewWalletView {
        NewWalletView {
            stage: self.stage,
            password: self.password@,
            verify_password: self.verify_password@,
            account_name: self.account_name@,
            mnemonic: phrase_view(self.mnemonic),
            seed_phrase: self.seed_phrase@,
            notification: self.notification@,
        }
    }
}

/// A password that wallet creation accepts: ASCII only, 16 to 64 characters.
pub open spec fn password_acceptable(p: Seq<char>) -> bool {
    &&& is_ascii_chars(p)
    &&& MINIMUM_PASSWORD_LENGTH <= p.len() <= MAXIMUM_PASSWORD_LENGTH
}

/// Submitting the password: it moves on to its confirmation when acceptable, and otherwise
/// says why not.
pub open spec fn spec_submit_password(w: NewWalletView) -> NewWalletView {
    if !is_ascii_chars(w.password) {
        NewWalletView { notification: NON_ASCII_CHARACTERS@, ..w }
    } else if !password_acceptable(w.password) {
        NewWalletView { notification: INVALID_PASSWORD_LENGTH@, ..w }
    } else {
        NewWalletView { stage: NewWalletStage::VerifyPassword, notification: Seq::empty(), ..w }
    }
}

/// Confirming the password: it moves on when both entries are the same text.
pub open spec fn spec_verify_password(w: NewWalletView) -> NewWalletView {
    if w.verify_password == w.password {
        NewWalletView { stage: NewWalletStage::EnterAccountName, notification: Seq::empty(), ..w }
    } else {
        NewWalletView { notification: PASSWORD_MISMATCH@, ..w }
    }
}

/// Submitting the account name: an empty one is refused; otherwise a generated phrase is
/// shown, or the phrase is asked for when there is none.
pub open spec fn spec_submit_account_name(w: NewWalletView) -> NewWalletView {
    if w.account_name.len() == 0 {
        NewWalletView { notification: EMPTY_ACCOUNT_NAME@, ..w }
    } else if w.mnemonic is Some {
        NewWalletView { stage: NewWalletStage::ViewSeedPhrase, notification: Seq::empty(), ..w }
    } else {
        NewWalletView { stage: NewWalletStage::EnterSeedPhrase, notification: Seq::empty(), ..w }
    }
}

/// Going back one screen; going back from the password leaves wallet creation (`None`).
pub open spec fn spec_back(w: NewWalletView) -> Option<NewWalletView> {
    match w.stage {
        NewWalletStage::EnterPassword => None,
        NewWalletStage::VerifyPassword => Some(
            NewWalletView {
                stage: NewWalletStage::EnterPassword,
                verify_password: Seq::empty(),
                notification: Seq::empty(),
                ..w
            },
        ),
        NewWalletStage::EnterAccountName => Some(
            NewWalletView {
                stage: NewWalletStage::EnterPassword,
                password: Seq::empty(),
                verify_password: Seq::empty(),
                notification: Seq::empty(),
                ..w
            },
        ),
        NewWalletStage::EnterSeedPhrase => Some(
            NewWalletView {
                stage: NewWalletStage::EnterAccountName,
                mnemonic: None,
                notification: Seq::empty(),
                ..w
            },
        ),
        NewWalletStage::ViewSeedPhrase => Some(
            NewWalletView {
                stage: NewWalletStage::EnterAccountName,
                notification: Seq::empty(),
                ..w
            },
        ),
        NewWalletStage::VerifySeedPhrase => Some(
            NewWalletView {
                stage: NewWalletStage::ViewSeedPhrase,
                notification: Seq::empty(),
                seed_phrase: Seq::new(SEED_WORDS as nat, |i: int| Seq::<char>::empty()),
                ..w
            },
        ),
    }
}

/// The recovery phrase after typed words were put into consecutive slots from `index` on.
pub open spec fn spec_input_seed(
    phrase: Seq<Seq<char>>,
    index: int,
    words: Seq<Seq<char>>,
) -> Seq<Seq<char>>
    decreases words.len(),
{
    if words.len() == 0 {
        phrase
    } else {
        let before = spec_input_seed(phrase, index, words.drop_last());
        let at = index + words.len() - 1;
        if 0 <= at < before.len() {
            before.update(at, words.last())
        } else {
            before
        }
    }
}

impl NewWallet {
    /// Creation of a new wallet, with a freshly generated recovery phrase.
    pub fn new_with_mnemonic() -> (r: Self)
        ensures
            r@.stage == NewWalletStage::EnterPassword,
            r@.password.len() == 0,
            r@.verify_password.len() == 0,
            r@.account_name.len() == 0,
            r@.mnemonic matches Some(p) && generated_phrase(p),
            r@.seed_phrase == Seq::new(SEED_WORDS as nat, |i: int| Seq::<char>::empty()),
            r@.notification.len() == 0,
    {
        let mut r = Self::new_without_mnemonic();
        r.mnemonic = Some(generate_mnemonic());
        r
    }

    /// Restoring a wallet: the recovery phrase is typed in later.
    pub fn new_without_mnemonic() -> (r: Self)
        ensures
            r@.stage == NewWalletStage::EnterPassword,
            r@.password.len() == 0,
            r@.verify_password.len() == 0,
            r@.account_name.len() == 0,
            r@.mnemonic is None,
            r@.seed_phrase == Seq::new(SEED_WORDS as nat, |i: int| Seq::<char>::empty()),
            r@.notification.len() == 0,
    {
        proof {
            reveal_strlit("");
            assert(""@ =~= Seq::<char>::empty());
        }
        NewWallet {
            stage: NewWalletStage::EnterPassword,
            password: Password::new(),
            verify_password: Password::new(),
            account_name: String::new(),
            mnemonic: None,
            seed_phrase: SeedPhrase::new(),
            notification: "",
        }
    }

    pub fn update_password_input(&mut self, input: &mut String)
        ensures
            final(self).mnemonic == old(self).mnemonic,
            final(self)@ == (NewWalletView { password: old(input)@, ..old(self)@ }),
            final(input)@.len() == 0,
    {
        self.password.replace_with(input);
    }

    pub fn submit_password(&mut self)
        ensures
            final(self).mnemonic == old(self).mnemonic,
            final(self)@ == spec_submit_password(old(self)@),
    {
        proof {
            reveal_strlit("");
            assert(""@ =~= Seq::<char>::empty());
        }
        let password = self.password.as_str();
        let ascii = password.is_ascii();
        // For ASCII text the byte length and the character count agree.
        let len = password.unicode_len();
        if !ascii {
            self.notification = NON_ASCII_CHARACTERS;
        } else if len < MINIMUM_PASSWORD_LENGTH || len > MAXIMUM_PASSWORD_LENGTH {
            self.notification = INVALID_PASSWORD_LENGTH;
        } else {
            self.stage = NewWalletStage::VerifyPassword;
            self.notification = "";
        }
    }

    pub fn update_verified_password_input(&mut self, input: String)
        ensures
            final(self).mnemonic == old(self).mnemonic,
            final(self)@ == (NewWalletView { verify_password: input@, ..old(self)@ }),
    {
        let mut input = input;
        self.verify_password.replace_with(&mut input);
    }

    pub fn verifi_password(&mut self)
        ensures
            final(self).mnemonic == old(self).mnemonic,
            final(self)@ == spec_verify_password(old(self)@),
    {
        proof {
            reveal_strlit("");
            assert(""@ =~= Seq::<char>::empty());
        }
        if texts_equal(self.verify_password.as_str(), self.password.as_str()) {
            self.stage = NewWalletStage::EnterAccountName;
            self.notification = "";
        } else {
            self.notification = PASSWORD_MISMATCH;
        }
    }

    pub fn update_account_name_input(&mut self, input: String)
        ensures
            final(self).mnemonic == old(self).mnemonic,
            final(self)@ == (NewWalletView { account_name: input@, ..old(self)@ }),
    {
        self.account_name = input;
    }

    pub fn submit_account_name(&mut self)
        ensures
            final(self).mnemonic == old(self).mnemonic,
            final(self)@ == spec_submit_account_name(old(self)@),
    {
        proof {
            reveal_strlit("");
            assert(""@ =~= Seq::<char>::empty());
        }
        if self.account_name.as_str().is_empty() {
            self.notification = EMPTY_ACCOUNT_NAME;
        } else {
            match self.mnemonic {
                Some(_) => self.stage = NewWalletStage::ViewSeedPhrase,
                None => self.stage = NewWalletStage::EnterSeedPhrase,
            }
            self.notification = "";
        }
    }

    pub fn show_seed_phrase(&mut self)
        ensures
            final(self).mnemonic == old(self).mnemonic,
            final(self)@ == (NewWalletView {
                stage: NewWalletStage::ViewSeedPhrase,
                notification: Seq::empty(),
                ..old(self)@
            }),
    {
        proof {
            reveal_strlit("");
            assert(""@ =~= Seq::<char>::empty());
        }
        self.stage = NewWalletStage::ViewSeedPhrase;
        self.notification = "";
    }

    pub fn verify_seed_phrase(&mut self)
        ensures
            final(self).mnemonic == old(self).mnemonic,
            final(self)@ == (NewWalletView {
                stage: NewWalletStage::VerifySeedPhrase,
                notification: Seq::empty(),
                ..old(self)@
            }),
    {
        proof {
            reveal_strlit("");
            assert(""@ =~= Seq::<char>::empty());
        }
        self.stage = NewWalletStage::VerifySeedPhrase;
        self.notification = "";
    }

    /// Puts typed words into consecutive slots of the phrase from `index` on (a pasted phrase
    /// fills several), wiping each word after use.
    pub fn update_input_seed(&mut self, index: usize, words: Vec<String>)
        requires
            index + words@.len() <= usize::MAX,
        ensures
            final(self).mnemonic == old(self).mnemonic,
            final(self)@ == (NewWalletView {
                seed_phrase: spec_input_seed(
                    old(self)@.seed_phrase,
                    index as int,
                    words@.map_values(|w: String| w@),
                ),
                ..old(self)@
            }),
    {
        let ghost held = self.mnemonic;
        let ghost initial = self@;
        let ghost typed = words@.map_values(|w: String| w@);
        let mut words = words;
        let mut at = index;
        let mut i: usize = 0;
        let n = words.len();
        while i < n
            invariant
                self.mnemonic == held,
                n == words@.len(),
                typed.len() == n,
                forall|j: int| i <= j < n ==> (#[trigger] words@[j])@ == typed[j],
                i <= n,
                at == index + i,
                index + n <= usize::MAX,
                self@ == (NewWalletView {
                    seed_phrase: spec_input_seed(initial.seed_phrase, index as int, typed.take(i as int)),
                    ..initial
                }),
            decreases n - i,
        {
            let mut word = String::new();
            std::mem::swap(&mut word, &mut words[i]);
            self.seed_phrase.update_word(at, word.as_str());
            wipe(&mut word);
            proof {
                assert(typed.take(i + 1).drop_last() =~= typed.take(i as int));
                assert(typed.take(i + 1).last() == typed[i as int]);
            }
            at += 1;
            i += 1;
        }
        assert(typed.take(n as int) =~= typed);
    }

    /// Sets the notification that a key could not be derived from the password.
    pub fn report_key_derivation_failure(&mut self)
        ensures
            final(self).mnemonic == old(self).mnemonic,
            final(self)@ == (NewWalletView { notification: KEY_DERIVATION_FAILED@, ..old(self)@ }),
    {
        self.notification = KEY_DERIVATION_FAILED;
    }

    /// Takes the phrase as `bip39` read it from the typed words: a phrase that was read
    /// becomes the wallet's, as it came; none leaves the complaint that the phrase is invalid.
    /// Gives back whether creation can go on.
    pub fn accept_parsed_phrase(&mut self, parsed: Option<(Mnemonic, String)>) -> (ready: bool)
        requires
            old(self).mnemonic is None,
        ensures
            ready == parsed is Some,
            ready ==> final(self).mnemonic == parsed,
            ready ==> final(self)@ == (NewWalletView { mnemonic: phrase_view(parsed), ..old(self)@ }),
            !ready ==> final(self)@ == (NewWalletView {
                notification: INVALID_SEED_PHRASE@,
                ..old(self)@
            }),
            !ready ==> final(self).mnemonic is None,
    {
        match parsed {
            Some(m) => {
                self.mnemonic = Some(m);
                true
            },
            None => {
                self.notification = INVALID_SEED_PHRASE;
                false
            },
        }
    }

    /// The first step of finishing: a restored wallet's typed phrase must be a valid
    /// recovery phrase, which then becomes the wallet's as `bip39` reads it; a generated one is
    /// kept as it is. Gives back whether creation can go on.
    pub fn create_wallet(&mut self) -> (ready: bool)
        ensures
            ready == (old(self)@.mnemonic is Some || valid_english_mnemonic(
                join_words(old(self)@.seed_phrase),
            )),
            final(self)@ == spec_create_wallet(old(self)@),
            old(self).mnemonic is Some ==> final(self).mnemonic == old(self).mnemonic,
    {
        if self.mnemonic.is_none() {
            let phrase = self.seed_phrase.phrase();
            let parsed = parse_mnemonic(phrase.as_str());
            return self.accept_parsed_phrase(parsed);
        }
        true
    }

    /// Hands the recovery phrase over for saving, as it is held; wallet creation no longer
    /// holds it.
    pub fn take_mnemonic(&mut self) -> (r: Option<(Mnemonic, String)>)
        ensures
            r == old(self).mnemonic,
            final(self).mnemonic is None,
            final(self)@ == (NewWalletView { mnemonic: None, ..old(self)@ }),
    {
        self.mnemonic.take()
    }
}

/// The setup screens: choosing how to create the wallet, or creating it.
pub enum Setup {
    SelectCreation,
    NewWallet(NewWallet),
}

impl View for Setup {
    type V = Option<NewWalletView>;

    open spec fn view(&self) -> Option<NewWalletView> {
        match self {
            Setup::SelectCreation => None,
            Setup::NewWallet(w) => Some(w@),
        }
    }
}

pub enum RestoreWalletMessage {
    FromCloud,
    FromFile,
}

pub enum WalletMessage {
    UpdatePassword(String),
    SubmitPassword,
    UpdateVerificationPassword(String),
    VerifiPassword,
    UpdateAccName(String),
    SubmitAccName,
    SeedPhrase,
    VerifySeedPhrase,
    UpdateInputSeed((usize, Vec<String>)),
    Finalize,
}

pub enum SetupMessage {
    Back,
    Restore,
    FromSeed,
    NewWallet,
    NewWalletMessage(WalletMessage),
    RestoreWalletMessage(RestoreWalletMessage),
}

/// What is left to do once a setup message was handled.
#[derive(PartialEq, Eq, Structural, Clone, Copy, Debug)]
pub enum SetupAction {
    Idle,
    /// The wallet is ready to be created: derive the database key, store the first account
    /// and save the encrypted recovery phrase.
    CreateWallet,
}

/// Finishing: valid once there is a recovery phrase, generated or typed; a typed one becomes
/// the wallet's as `bip39` reads it.
pub open spec fn spec_create_wallet(w: NewWalletView) -> NewWalletView {
    if w.mnemonic is Some {
        w
    } else {
        match bip39_parse(join_words(w.seed_phrase)) {
            Some(p) => NewWalletView { mnemonic: Some(p), ..w },
            None => NewWalletView { notification: INVALID_SEED_PHRASE@, ..w },
        }
    }
}

/// What a wallet-creation message does.
pub open spec fn spec_wallet_message(w: NewWalletView, m: WalletMessage) -> NewWalletView {
    match m {
        WalletMessage::UpdatePassword(input) => NewWalletView { password: input@, ..w },
        WalletMessage::SubmitPassword => spec_submit_password(w),
        WalletMessage::UpdateVerificationPassword(input) => NewWalletView {
            verify_password: input@,
            ..w
        },
        WalletMessage::VerifiPassword => spec_verify_password(w),
        WalletMessage::UpdateAccName(input) => NewWalletView { account_name: input@, ..w },
        WalletMessage::SubmitAccName => spec_submit_account_name(w),
        WalletMessage::SeedPhrase => NewWalletView {
            stage: NewWalletStage::ViewSeedPhrase,
            notification: Seq::empty(),
            ..w
        },
        WalletMessage::VerifySeedPhrase => NewWalletView {
            stage: NewWalletStage::VerifySeedPhrase,
            notification: Seq::empty(),
            ..w
        },
        WalletMessage::UpdateInputSeed((index, words)) => NewWalletView {
            seed_phrase: spec_input_seed(w.seed_phrase, index as int, words@.map_values(|x: String| x@)),
            ..w
        },
        WalletMessage::Finalize => spec_create_wallet(w),
    }
}

/// Whether a wallet-creation message can be handled without overflowing the slot index.
pub open spec fn wallet_message_fits(m: WalletMessage) -> bool {
    match m {
        WalletMessage::UpdateInputSeed((index, words)) => index + words@.len() <= usize::MAX,
        _ => true,
    }
}

/// The recovery phrase that wallet creation holds, if it is under way.
pub open spec fn held_mnemonic(s: Setup) -> Option<(Mnemonic, String)> {
    match s {
        Setup::NewWallet(w) => w.mnemonic,
        Setup::SelectCreation => None,
    }
}

impl WalletMessage {
    /// Handles a message on the wallet-creation screens.
    pub fn process(self, setup: &mut Setup) -> (action: SetupAction)
        requires
            old(setup)@ is Some,
            wallet_message_fits(self),
        ensures
            final(setup)@ == Some(spec_wallet_message(old(setup)@.unwrap(), self)),
            action == (if self is Finalize && (old(setup)@.unwrap().mnemonic is Some
                || valid_english_mnemonic(join_words(old(setup)@.unwrap().seed_phrase))) {
                SetupAction::CreateWallet
            } else {
                SetupAction::Idle
            }),
            held_mnemonic(*old(setup)) is Some || !(self is Finalize) ==> held_mnemonic(
                *final(setup),
            ) == held_mnemonic(*old(setup)),
    {
        let ghost m = self;
        match setup {
            Setup::NewWallet(w) => match self {
                WalletMessage::UpdatePassword(input) => {
                    let mut input = input;
                    w.update_password_input(&mut input);
                    SetupAction::Idle
                },
                WalletMessage::SubmitPassword => {
                    w.submit_password();
                    SetupAction::Idle
                },
                WalletMessage::UpdateVerificationPassword(input) => {
                    w.update_verified_password_input(input);
                    SetupAction::Idle
                },
                WalletMessage::VerifiPassword => {
                    w.verifi_password();
                    SetupAction::Idle
                },
                WalletMessage::UpdateAccName(input) => {
                    w.update_account_name_input(input);
                    SetupAction::Idle
                },
                WalletMessage::SubmitAccName => {
                    w.submit_account_name();
                    SetupAction::Idle
                },
                WalletMessage::SeedPhrase => {
                    w.show_seed_phrase();
                    SetupAction::Idle
                },
                WalletMessage::VerifySeedPhrase => {
                    w.verify_seed_phrase();
                    SetupAction::Idle
                },
                WalletMessage::UpdateInputSeed((index, words)) => {
                    w.update_input_seed(index, words);
                    SetupAction::Idle
                },
                WalletMessage::Finalize => {
                    if w.create_wallet() {
                        SetupAction::CreateWallet
                    } else {
                        SetupAction::Idle
                    }
                },
            },
            Setup::SelectCreation => SetupAction::Idle,
        }
    }
}

/// Whether a setup message can be handled: a wallet-creation message needs the creation
/// screens.
pub open spec fn setup_message_fits(m: SetupMessage, setup: Option<NewWalletView>) -> bool {
    match m {
        SetupMessage::NewWalletMessage(w) => setup is Some && wallet_message_fits(w),
        _ => true,
    }
}

/// The creation state that starting over gives, with a generated phrase or without one.
pub open spec fn fresh_new_wallet(w: NewWalletView, generated: bool) -> bool {
    &&& w.stage == NewWalletStage::EnterPassword
    &&& w.password.len() == 0
    &&& w.verify_password.len() == 0
    &&& w.account_name.len() == 0
    &&& generated ==> (w.mnemonic matches Some(p) && generated_phrase(p))
    &&& !generated ==> w.mnemonic is None
    &&& w.seed_phrase == Seq::new(SEED_WORDS as nat, |i: int| Seq::<char>::empty())
    &&& w.notification.len() == 0
}

impl SetupMessage {
    /// Handles a message of the setup screens.
    pub fn process(self, setup: &mut Setup) -> (action: SetupAction)
        requires
            setup_message_fits(self, old(setup)@),
        ensures
            match self {
                SetupMessage::Back => final(setup)@ == (match old(setup)@ {
                    None => None,
                    Some(w) => spec_back(w),
                }) && action == SetupAction::Idle,
                SetupMessage::NewWallet => (if old(setup)@ is None {
                    final(setup)@ matches Some(w) && fresh_new_wallet(w, true)
                } else {
                    final(setup)@ == old(setup)@
                }) && action == SetupAction::Idle,
                SetupMessage::FromSeed => (final(setup)@ matches Some(w) && fresh_new_wallet(
                    w,
                    false,
                )) && action == SetupAction::Idle,
                SetupMessage::NewWalletMessage(m) => final(setup)@ == Some(
                    spec_wallet_message(old(setup)@.unwrap(), m),
                ) && action == (if m is Finalize && (old(setup)@.unwrap().mnemonic is Some
                    || valid_english_mnemonic(join_words(old(setup)@.unwrap().seed_phrase))) {
                    SetupAction::CreateWallet
                } else {
                    SetupAction::Idle
                }) && (held_mnemonic(*old(setup)) is Some || !(m is Finalize) ==> held_mnemonic(
                    *final(setup),
                ) == held_mnemonic(*old(setup))),
                _ => final(setup)@ == old(setup)@ && action == SetupAction::Idle,
            },
            self is Back ==> held_mnemonic(*final(setup)) is None || held_mnemonic(*final(setup))
                == held_mnemonic(*old(setup)),
            self is Restore || self is RestoreWalletMessage ==> held_mnemonic(*final(setup))
                == held_mnemonic(*old(setup)),
            self is NewWallet && !(*old(setup) is SelectCreation) ==> held_mnemonic(
                *final(setup),
            ) == held_mnemonic(*old(setup)),
    {
        match self {
            SetupMessage::Back => {
                Self::back(setup);
                SetupAction::Idle
            },
            SetupMessage::NewWallet => {
                if let Setup::SelectCreation = setup {
                    *setup = Setup::NewWallet(NewWallet::new_with_mnemonic());
                }
                SetupAction::Idle
            },
            SetupMessage::FromSeed => {
                *setup = Setup::NewWallet(NewWallet::new_without_mnemonic());
                SetupAction::Idle
            },
            SetupMessage::NewWalletMessage(m) => m.process(setup),
            _ => SetupAction::Idle,
        }
    }

    /// Goes back one screen.
    pub fn back(setup: &mut Setup)
        ensures
            final(setup)@ == (match old(setup)@ {
                None => None,
                Some(w) => spec_back(w),
            }),
            held_mnemonic(*final(setup)) is None || held_mnemonic(*final(setup)) == held_mnemonic(
                *old(setup),
            ),
    {
        proof {
            reveal_strlit("");
            assert(""@ =~= Seq::<char>::empty());
        }
        match setup {
            Setup::NewWallet(w) => match w.stage {
                NewWalletStage::EnterPassword => {
                    *setup = Setup::SelectCreation;
                },
                NewWalletStage::VerifyPassword => {
                    w.stage = NewWalletStage::EnterPassword;
                    w.verify_password.clear();
                    w.notification = "";
                },
                NewWalletStage::EnterAccountName => {
                    w.stage = NewWalletStage::EnterPassword;
                    w.password.clear();
                    w.verify_password.clear();
                    w.notification = "";
                },
                NewWalletStage::EnterSeedPhrase => {
                    w.stage = NewWalletStage::EnterAccountName;
                    w.mnemonic = None;
                    w.notification = "";
                },
                NewWalletStage::ViewSeedPhrase => {
                    w.stage = NewWalletStage::EnterAccountName;
                    w.notification = "";
                },
                NewWalletStage::VerifySeedPhrase => {
                    w.stage = NewWalletStage::ViewSeedPhrase;
                    w.notification = "";
                    w.seed_phrase = SeedPhrase::new();
                },
            },
            Setup::SelectCreation => {},
        }
    }
}

/// Going back from the password confirmation that an accepted password led to returns to
/// the password screen, keeping the password and dropping the confirmation.
pub proof fn law_back_undoes_password_submission(w: NewWalletView)
    requires
        w.stage == NewWalletStage::EnterPassword,
        password_acceptable(w.password),
    ensures
        spec_back(spec_submit_password(w)) == Some(
            NewWalletView {
                verify_password: Seq::empty(),
                notification: Seq::empty(),
                ..w
            },
        ),
{
}

/// A refused password never leaves the password screen.
pub proof fn law_refused_password_stays(w: NewWalletView)
    requires
        !password_acceptable(w.password),
    ensures
        spec_submit_password(w).stage == w.stage,
        spec_submit_password(w).notification.len() > 0,
{
    reveal_strlit("Password contains invalid characters");
    reveal_strlit("Password must be between 16 and 64 characters long");
}

/// An accepted password, its exact confirmation and a non-empty account name bring a new
/// wallet to the screen that shows its generated recovery phrase, with nothing else changed.
pub proof fn law_happy_path_reaches_phrase(w: NewWalletView, confirmation: Seq<char>, name: Seq<char>)
    requires
        w.stage == NewWalletStage::EnterPassword,
        w.mnemonic is Some,
        password_acceptable(w.password),
        confirmation == w.password,
        name.len() > 0,
    ensures
        spec_submit_account_name(
            NewWalletView {
                account_name: name,
                ..spec_verify_password(
                    NewWalletView { verify_password: confirmation, ..spec_submit_password(w) },
                )
            },
        ) == (NewWalletView {
            stage: NewWalletStage::ViewSeedPhrase,
            verify_password: confirmation,
            account_name: name,
            notification: Seq::empty(),
            ..w
        }),
{
}

/// A confirmation that differs from the password in any way never leaves the screen it was
/// given on: the complaint that the passwords do not match is shown, and both entries stay.
pub proof fn law_mismatched_confirmation_stays(w: NewWalletView)
    requires
        w.verify_password != w.password,
    ensures
        spec_verify_password(w).stage == w.stage,
        spec_verify_password(w).notification == PASSWORD_MISMATCH@,
        spec_verify_password(w).password == w.password,
        spec_verify_password(w).verify_password == w.verify_password,
{
}

/// The confirmation screen is left for the account name exactly when the confirmation is the
/// password itself.
pub proof fn law_confirmation_moves_on_only_when_equal(w: NewWalletView)
    requires
        w.stage == NewWalletStage::VerifyPassword,
    ensures
        (spec_verify_password(w).stage == NewWalletStage::EnterAccountName) == (w.verify_password
            == w.password),
{
}

/// Typing several words from a slot on fills the slots from there, one word each, as far as
/// the phrase reaches; every other slot keeps its word, and the phrase keeps its length.
pub proof fn law_typed_words_fill_consecutive_slots(
    phrase: Seq<Seq<char>>,
    index: int,
    words: Seq<Seq<char>>,
)
    ensures
        spec_input_seed(phrase, index, words).len() == phrase.len(),
        forall|k: int|
            0 <= k < phrase.len() ==> (#[trigger] spec_input_seed(phrase, index, words)[k]) == if index
                <= k < index + words.len() {
                words[k - index]
            } else {
                phrase[k]
            },
    decreases words.len(),
{
    if words.len() > 0 {
        let dl = words.drop_last();
        law_typed_words_fill_consecutive_slots(phrase, index, dl);
        assert forall|k: int| 0 <= k < phrase.len() implies (#[trigger] spec_input_seed(
            phrase,
            index,
            words,
        )[k]) == if index <= k < index + words.len() {
            words[k - index]
        } else {
            phrase[k]
        } by {
            if index <= k < index + dl.len() {
                assert(dl[k - index] == words[k - index]);
            }
        }
    }
}

/// A submitted password leads on to its confirmation exactly when it is ASCII and 16 to 64
/// characters long; otherwise the password screen stays with a complaint.
pub proof fn law_password_rules(w: NewWalletView)
    requires
        w.stage == NewWalletStage::EnterPassword,
    ensures
        (spec_submit_password(w).stage == NewWalletStage::VerifyPassword) == (is_ascii_chars(
            w.password,
        ) && 16 <= w.password.len() <= 64),
        spec_submit_password(w).stage != NewWalletStage::VerifyPassword ==> spec_submit_password(
            w,
        ).stage == NewWalletStage::EnterPassword,
        spec_submit_password(w).password == w.password,
{
}

} // verus!
