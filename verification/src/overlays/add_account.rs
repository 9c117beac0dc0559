//! The dialog that adds an account: its name first, then the wallet password.
use vstd::prelude::*;

use crate::model::Account;
use crate::secret::Password;

verus! {

pub const EMPTY_NAME_NOTICE: &'static str = "Account name cannot be empty";

pub const CREATE_FAILED_PREFIX: &'static str = "Unable to create account: ";

pub const SAVE_FAILED_PREFIX: &'static str = "Unable to save account to database: ";

pub enum Message {
    InputAccountName(String),
    InputPassword(String),
    Back,
    Continue,
    Submit,
}

/// The two screens of the dialog.
#[derive(PartialEq, Eq, Structural, Clone, Copy, Debug)]
pub enum Screen {
    InputAccountName,
    InputPassword,
}

pub struct AddAccount {
    pub notification: String,
    pub account_name: String,
    pub password: Password,
    pub view: Screen,
}

/// The dialog as plain values.
pub struct AddAccountView {
    pub notification: Seq<char>,
    pub account_name: Seq<char>,
    pub password: Seq<char>,
    pub view: Screen,
}

impl View for AddAccount {
    type V = AddAccountView;

    open spec fn view(&self) -> AddAccountView {
        AddAccountView {
            notification: self.notification@,
            account_name: self.account_name@,
            password: self.password@,
            view: self.view,
        }
    }
}

/// Typing a name clears an earlier complaint once the name is not empty.
pub open spec fn spec_update_account_name(a: AddAccountView, input: Seq<char>) -> AddAccountView {
    AddAccountView {
        notification: if input.len() > 0 { Seq::empty() } else { a.notification },
        account_name: input,
        ..a
    }
}

/// Continuing from the name: a non-empty name leads to the password, an empty one is refused.
pub open spec fn spec_next(a: AddAccountView) -> AddAccountView {
    match a.view {
        Screen::InputAccountName => if a.account_name.len() > 0 {
            AddAccountView { notification: Seq::empty(), view: Screen::InputPassword, ..a }
        } else {
            AddAccountView { notification: EMPTY_NAME_NOTICE@, ..a }
        },
        Screen::InputPassword => a,
    }
}

/// Going back from the password to the name.
pub open spec fn spec_back(a: AddAccountView) -> AddAccountView {
    AddAccountView { view: Screen::InputAccountName, ..a }
}

/// What a message of the dialog does to it.
pub open spec fn spec_update(a: AddAccountView, m: Message) -> AddAccountView {
    match m {
        Message::InputAccountName(input) => spec_update_account_name(a, input@),
        Message::InputPassword(input) => AddAccountView { password: input@, ..a },
        Message::Back => spec_back(a),
        Message::Continue => spec_next(a),
        Message::Submit => a,
    }
}

impl AddAccount {
    pub fn new() -> (r: Self)
        ensures
            r@.notification.len() == 0,
            r@.account_name.len() == 0,
            r@.password.len() == 0,
            r@.view == Screen::InputAccountName,
    {
        AddAccount {
            notification: String::new(),
            account_name: String::new(),
            password: Password::new(),
            view: Screen::InputAccountName,
        }
    }

    /// Handles a message of the dialog. Submitting is left to the caller, which creates the
    /// account from the stored recovery phrase.
    pub fn update(&mut self, message: Message)
        ensures
            final(self)@ == spec_update(old(self)@, message),
    {
        match message {
            Message::InputAccountName(input) => self.update_account_name(input),
            Message::InputPassword(input) => self.update_password(input),
            Message::Back => self.back(),
            Message::Continue => self.next(),
            Message::Submit => {},
        }
    }

    pub fn update_account_name(&mut self, input: String)
        ensures
            final(self)@ == spec_update_account_name(old(self)@, input@),
    {
        if !input.as_str().is_empty() && !self.notification.as_str().is_empty() {
            self.notification = String::new();
        }
        proof {
            if input@.len() > 0 && self.notification@.len() == 0 {
                assert(self.notification@ =~= Seq::<char>::empty());
            }
        }
        self.account_name = input;
    }

    pub fn update_password(&mut self, input: String)
        ensures
            final(self)@ == (AddAccountView { password: input@, ..old(self)@ }),
    {
        let mut input = input;
        self.password.replace_with(&mut input);
    }

    pub fn back(&mut self)
        ensures
            final(self)@ == spec_back(old(self)@),
    {
        if let Screen::InputPassword = self.view {
            self.view = Screen::InputAccountName;
        }
    }

    pub fn next(&mut self)
        ensures
            final(self)@ == spec_next(old(self)@),
    {
        match self.view {
            Screen::InputAccountName => {
                if !self.account_name.as_str().is_empty() {
                    self.notification = String::new();
                    self.view = Screen::InputPassword;
                } else {
                    self.notification = String::from_str(EMPTY_NAME_NOTICE);
                }
            },
            Screen::InputPassword => {},
        }
    }

    /// Shows why the account could not be created.
    pub fn report_create_failure(&mut self, error: &str)
        ensures
            final(self)@ == (AddAccountView {
                notification: CREATE_FAILED_PREFIX@ + error@,
                ..old(self)@
            }),
    {
        let mut text = String::from_str(CREATE_FAILED_PREFIX);
        text.append(error);
        self.notification = text;
    }

    /// Shows why the new account could not be saved.
    pub fn report_save_failure(&mut self, error: &str)
        ensures
            final(self)@ == (AddAccountView {
                notification: SAVE_FAILED_PREFIX@ + error@,
                ..old(self)@
            }),
    {
        let mut text = String::from_str(SAVE_FAILED_PREFIX);
        text.append(error);
        self.notification = text;
    }
}

/// The id that a new account gets: one past the largest id in use, or 0 for the first.
pub open spec fn next_id(ids: Seq<usize>) -> int
    decreases ids.len(),
{
    if ids.len() == 0 {
        0
    } else {
        let before = next_id(ids.drop_last());
        if ids.last() >= before {
            ids.last() + 1
        } else {
            before
        }
    }
}

/// The derivation index that a new account gets: one past the largest in use, or 0.
pub open spec fn next_index(indices: Seq<u32>) -> int
    decreases indices.len(),
{
    if indices.len() == 0 {
        0
    } else {
        let before = next_index(indices.drop_last());
        if indices.last() >= before {
            indices.last() + 1
        } else {
            before
        }
    }
}

pub open spec fn account_ids(accounts: Seq<Account>) -> Seq<usize> {
    accounts.map_values(|a: Account| a.id)
}

pub open spec fn account_indices(accounts: Seq<Account>) -> Seq<u32> {
    accounts.map_values(|a: Account| a.derivation_index)
}

/// The id and derivation index of the account to add next to the given ones.
pub fn next_account_numbers(accounts: &Vec<Account>) -> (r: (usize, u32))
    requires
        forall|i: int| 0 <= i < accounts@.len() ==> (#[trigger] accounts@[i]).id < usize::MAX,
        forall|i: int|
            0 <= i < accounts@.len() ==> (#[trigger] accounts@[i]).derivation_index < u32::MAX,
    ensures
        r.0 == next_id(account_ids(accounts@)),
        r.1 == next_index(account_indices(accounts@)),
{
    let mut id: usize = 0;
    let mut index: u32 = 0;
    let mut i: usize = 0;
    while i < accounts.len()
        invariant
            i <= accounts@.len(),
            forall|j: int| 0 <= j < accounts@.len() ==> (#[trigger] accounts@[j]).id < usize::MAX,
            forall|j: int|
                0 <= j < accounts@.len() ==> (#[trigger] accounts@[j]).derivation_index < u32::MAX,
            id == next_id(account_ids(accounts@).take(i as int)),
            index == next_index(account_indices(accounts@).take(i as int)),
        decreases accounts@.len() - i,
    {
        let account = &accounts[i];
        proof {
            assert(account_ids(accounts@).take(i + 1).drop_last() =~= account_ids(accounts@).take(
                i as int,
            ));
            assert(account_indices(accounts@).take(i + 1).drop_last() =~= account_indices(
                accounts@,
            ).take(i as int));
        }
        if account.id >= id {
            id = account.id + 1;
        }
        if account.derivation_index >= index {
            index = account.derivation_index + 1;
        }
        i += 1;
    }
    assert(account_ids(accounts@).take(accounts@.len() as int) =~= account_ids(accounts@));
    assert(account_indices(accounts@).take(accounts@.len() as int) =~= account_indices(accounts@));
    (id, index)
}

/// The id chosen for a new account is larger than every id in use, and so is its derivation
/// index; a new account never takes the numbers of an existing one.
pub proof fn law_new_account_numbers_are_fresh(ids: Seq<usize>, indices: Seq<u32>)
    ensures
        forall|i: int| 0 <= i < ids.len() ==> #[trigger] ids[i] < next_id(ids),
        forall|i: int| 0 <= i < indices.len() ==> #[trigger] indices[i] < next_index(indices),
        next_id(ids) >= 0,
        next_index(indices) >= 0,
    decreases ids.len() + indices.len(),
{
    if ids.len() > 0 {
        law_new_account_numbers_are_fresh(ids.drop_last(), indices);
        assert forall|i: int| 0 <= i < ids.len() implies #[trigger] ids[i] < next_id(ids) by {
            if i < ids.len() - 1 {
                assert(ids.drop_last()[i] == ids[i]);
            }
        }
    }
    if indices.len() > 0 {
        law_new_account_numbers_are_fresh(ids, indices.drop_last());
        assert forall|i: int| 0 <= i < indices.len() implies #[trigger] indices[i] < next_index(
            indices,
        ) by {
            if i < indices.len() - 1 {
                assert(indices.drop_last()[i] == indices[i]);
            }
        }
    }
}

/// Going on from a non-empty name and then back returns to the name screen with the name
/// kept and no complaint showing.
pub proof fn law_next_then_back(a: AddAccountView)
    requires
        a.view == Screen::InputAccountName,
        a.account_name.len() > 0,
    ensures
        spec_back(spec_next(a)) == (AddAccountView { notification: Seq::empty(), ..a }),
{
}

/// A new account's numbers follow the largest ones in use and skip none: 0 for the first
/// account, otherwise one past a number in use (with freshness, one past the largest).
pub proof fn law_new_account_numbers_follow_the_largest(ids: Seq<usize>, indices: Seq<u32>)
    ensures
        ids.len() == 0 ==> next_id(ids) == 0,
        ids.len() > 0 ==> exists|i: int| 0 <= i < ids.len() && next_id(ids) == (#[trigger] ids[i]) + 1,
        indices.len() == 0 ==> next_index(indices) == 0,
        indices.len() > 0 ==> exists|i: int|
            0 <= i < indices.len() && next_index(indices) == (#[trigger] indices[i]) + 1,
    decreases ids.len() + indices.len(),
{
    if ids.len() > 0 {
        let n = ids.len() - 1;
        law_new_account_numbers_follow_the_largest(ids.drop_last(), indices);
        assert(ids.last() == ids[n]);
        if ids[n] >= next_id(ids.drop_last()) {
            assert(next_id(ids) == ids[n] + 1);
        } else {
            let i = choose|i: int| 0 <= i < ids.drop_last().len() && next_id(ids.drop_last()) == (
            #[trigger] ids.drop_last()[i]) + 1;
            assert(ids.drop_last()[i] == ids[i]);
        }
    }
    if indices.len() > 0 {
        let n = indices.len() - 1;
        law_new_account_numbers_follow_the_largest(ids, indices.drop_last());
        assert(indices.last() == indices[n]);
        if indices[n] >= next_index(indices.drop_last()) {
            assert(next_index(indices) == indices[n] + 1);
        } else {
            let i = choose|i: int|
                0 <= i < indices.drop_last().len() && next_index(indices.drop_last()) == (
                #[trigger] indices.drop_last()[i]) + 1;
            assert(indices.drop_last()[i] == indices[i]);
        }
    }
}

} // verus!
