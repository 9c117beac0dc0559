//! A recipient screen on which one of the wallet's accounts is chosen by a radio button; typed
//! text is only kept.
use vstd::prelude::*;

use crate::keyed::TextKey;
use crate::model::{Account, AccountAddress};

use super::add_recipient::{address_set, AddRecipientAction};
use super::recipients::Recipient;

verus! {

pub enum Message {
    RecipientInput(String),
    SelectRadioButton(AccountAddress),
    Submit,
}

pub struct ChooseRecipient {
    pub recipient_index: usize,
    pub recipient_input: String,
    pub selected_radio: Option<usize>,
    pub chosen_account: Option<AccountAddress>,
}

impl ChooseRecipient {
    pub fn new(recipient_index: usize) -> (r: Self)
        ensures
            r.recipient_index == recipient_index,
            r.recipient_input@.len() == 0,
            r.selected_radio is None,
            r.chosen_account is None,
    {
        ChooseRecipient {
            recipient_index,
            recipient_input: String::new(),
            selected_radio: None,
            chosen_account: None,
        }
    }

    /// Sets the chosen account as the recipient's address and leaves nothing chosen.
    pub fn submit(&mut self, recipients: &mut Vec<Recipient>) -> (action: AddRecipientAction)
        requires
            old(self).recipient_index < old(recipients)@.len(),
        ensures
            action == AddRecipientAction::ShowTransaction,
            final(self).chosen_account is None,
            final(self).recipient_index == old(self).recipient_index,
            final(self).recipient_input == old(self).recipient_input,
            final(self).selected_radio == old(self).selected_radio,
            address_set(
                old(recipients)@,
                final(recipients)@,
                old(self).recipient_index as int,
                old(self).chosen_account,
            ),
    {
        let mut r = recipients.remove(self.recipient_index);
        r.address = self.chosen_account.take();
        recipients.insert(self.recipient_index, r);
        AddRecipientAction::ShowTransaction
    }

    /// Handles a message of the screen.
    pub fn update(&mut self, message: Message, recipients: &mut Vec<Recipient>) -> (action: AddRecipientAction)
        requires
            message is Submit ==> old(self).recipient_index < old(recipients)@.len(),
        ensures
            final(self).recipient_index == old(self).recipient_index,
            final(self).selected_radio == old(self).selected_radio,
            match message {
                Message::RecipientInput(input) => {
                    &&& final(self).recipient_input == input
                    &&& final(self).chosen_account == old(self).chosen_account
                    &&& final(recipients)@ == old(recipients)@
                    &&& action == AddRecipientAction::Idle
                },
                Message::SelectRadioButton(address) => {
                    &&& final(self).chosen_account == Some(address)
                    &&& final(self).recipient_input == old(self).recipient_input
                    &&& final(recipients)@ == old(recipients)@
                    &&& action == AddRecipientAction::Idle
                },
                Message::Submit => {
                    &&& final(self).chosen_account is None
                    &&& final(self).recipient_input == old(self).recipient_input
                    &&& action == AddRecipientAction::ShowTransaction
                    &&& address_set(
                        old(recipients)@,
                        final(recipients)@,
                        old(self).recipient_index as int,
                        old(self).chosen_account,
                    )
                },
            },
    {
        match message {
            Message::RecipientInput(input) => {
                self.recipient_input = input;
                AddRecipientAction::Idle
            },
            Message::SelectRadioButton(address) => {
                self.chosen_account = Some(address);
                AddRecipientAction::Idle
            },
            Message::Submit => self.submit(recipients),
        }
    }
}

/// The accounts that the screen lists, in the order given, each with whether it is the one
/// chosen.
pub open spec fn listed_accounts(accounts: Seq<Account>, chosen: Option<AccountAddress>) -> Seq<
    (Account, bool),
> {
    accounts.map_values(
        |a: Account|
            (
                a,
                match chosen {
                    Some(c) => c@ == a.address@,
                    None => false,
                },
            ),
    )
}

impl ChooseRecipient {
    /// The wallet's accounts as the screen lists them: each with whether it is the chosen one.
    pub fn offered(&self, accounts: &Vec<Account>) -> (r: Vec<(Account, bool)>)
        ensures
            r@ == listed_accounts(accounts@, self.chosen_account),
    {
        let n = accounts.len();
        let mut r: Vec<(Account, bool)> = Vec::new();
        let mut i: usize = 0;
        while i < n
            invariant
                n == accounts@.len(),
                i <= n,
                r@ == listed_accounts(accounts@.take(i as int), self.chosen_account),
            decreases n - i,
        {
            let account = &accounts[i];
            let is_chosen = match &self.chosen_account {
                Some(c) => c.same_text(&account.address),
                None => false,
            };
            r.push((account.clone(), is_chosen));
            assert(r@ =~= listed_accounts(accounts@.take(i + 1), self.chosen_account));
            i += 1;
        }
        assert(accounts@.take(n as int) =~= accounts@);
        r
    }

    /// Whether the listed accounts can be clicked: not while an address is being typed.
    pub fn accounts_clickable(&self) -> (r: bool)
        ensures
            r == (self.recipient_input@.len() == 0),
    {
        self.recipient_input.as_str().is_empty()
    }

    /// Whether the Submit button is enabled: exactly when an account is chosen.
    pub fn submit_enabled(&self) -> (r: bool)
        ensures
            r == (self.chosen_account is Some),
    {
        self.chosen_account.is_some()
    }
}

} // verus!
