//! The screen that chooses the account a recipient is: one of the wallet's own accounts, or an
//! address typed in.
use vstd::prelude::*;

use crate::keyed::{KeyedList, TextKey};
use crate::model::{Account, AccountAddress};

use super::recipients::{address_view, AddressInput, Recipient};

verus! {

pub enum Message {
    RecipientInput(AddressInput),
    SelectRadioButton(AccountAddress),
    Submit,
}

pub struct AddRecipient {
    /// The sending account, which cannot be its own recipient.
    pub from_account: Option<AccountAddress>,
    pub recipient_index: usize,
    pub recipient_input: String,
    pub selected_radio: Option<usize>,
    pub chosen_account: Option<AccountAddress>,
}

/// The screen as plain values.
pub struct AddRecipientView {
    pub from_account: Option<Seq<char>>,
    pub recipient_index: usize,
    pub recipient_input: Seq<char>,
    pub selected_radio: Option<usize>,
    pub chosen_account: Option<Seq<char>>,
}

impl View for AddRecipient {
    type V = AddRecipientView;

    open spec fn view(&self) -> AddRecipientView {
        AddRecipientView {
            from_account: address_view(self.from_account),
            recipient_index: self.recipient_index,
            recipient_input: self.recipient_input@,
            selected_radio: self.selected_radio,
            chosen_account: address_view(self.chosen_account),
        }
    }
}

/// Typing an address: a valid one is chosen unless it is the sender's, an invalid one unchooses
/// whatever was chosen; the text is kept either way.
pub open spec fn spec_recipient_input(a: AddRecipientView, input: AddressInput) -> AddRecipientView {
    match input.parsed {
        Some(address) => AddRecipientView {
            recipient_input: input.text@,
            chosen_account: if a.from_account == Some(address@) {
                a.chosen_account
            } else {
                Some(address@)
            },
            ..a
        },
        None => AddRecipientView { recipient_input: input.text@, chosen_account: None, ..a },
    }
}

/// The recipients after one of them got a new address, its assets kept.
pub open spec fn address_set(
    before: Seq<Recipient>,
    after: Seq<Recipient>,
    index: int,
    address: Option<AccountAddress>,
) -> bool {
    &&& after.len() == before.len()
    &&& after[index].address == address
    &&& after[index].resources == before[index].resources
    &&& forall|i: int| 0 <= i < before.len() && i != index ==> #[trigger] after[i] == before[i]
}

/// What the caller is left to do after a message of the screen.
#[derive(PartialEq, Eq, Structural, Clone, Copy, Debug)]
pub enum AddRecipientAction {
    Idle,
    /// The recipient was set: show the transfer again.
    ShowTransaction,
}

impl AddRecipient {
    pub fn new(recipient_index: usize, from_account: Option<AccountAddress>) -> (r: Self)
        ensures
            r@ == (AddRecipientView {
                from_account: address_view(from_account),
                recipient_index,
                recipient_input: Seq::empty(),
                selected_radio: None,
                chosen_account: None,
            }),
    {
        AddRecipient {
            from_account,
            recipient_index,
            recipient_input: String::new(),
            selected_radio: None,
            chosen_account: None,
        }
    }

    pub fn recipient_input(&mut self, input: AddressInput)
        ensures
            final(self)@ == spec_recipient_input(old(self)@, input),
    {
        let ghost typed = input;
        match input.parsed {
            Some(address) => {
                match &self.from_account {
                    Some(sender) => {
                        if !address.same_text(sender) {
                            self.chosen_account = Some(address);
                        }
                    },
                    None => {
                        self.chosen_account = Some(address);
                    },
                }
                self.recipient_input = input.text;
            },
            None => {
                self.chosen_account = None;
                self.recipient_input = input.text;
            },
        }
    }

    /// Sets the chosen account as the recipient's address and leaves nothing chosen.
    pub fn submit(&mut self, recipients: &mut Vec<Recipient>) -> (action: AddRecipientAction)
        requires
            old(self).recipient_index < old(recipients)@.len(),
        ensures
            action == AddRecipientAction::ShowTransaction,
            final(self)@ == (AddRecipientView { chosen_account: None, ..old(self)@ }),
            address_set(
                old(recipients)@,
                final(recipients)@,
                old(self).recipient_index as int,
                old(self).chosen_account,
            ),
    {
        let mut r = recipients.remove(self.recipient_index);
        r.address = self.chosen_account.take();
        recipients.insert(self.recipient_index, r);
        AddRecipientAction::ShowTransaction
    }

    /// Handles a message of the screen.
    pub fn update(&mut self, message: Message, recipients: &mut Vec<Recipient>) -> (action: AddRecipientAction)
        requires
            message is Submit ==> old(self).recipient_index < old(recipients)@.len(),
        ensures
            match message {
                Message::RecipientInput(input) => {
                    &&& final(self)@ == spec_recipient_input(old(self)@, input)
                    &&& final(recipients)@ == old(recipients)@
                    &&& action == AddRecipientAction::Idle
                },
                Message::SelectRadioButton(address) => {
                    &&& final(self)@ == (AddRecipientView {
                        chosen_account: Some(address@),
                        ..old(self)@
                    })
                    &&& final(recipients)@ == old(recipients)@
                    &&& action == AddRecipientAction::Idle
                },
                Message::Submit => {
                    &&& final(self)@ == (AddRecipientView { chosen_account: None, ..old(self)@ })
                    &&& action == AddRecipientAction::ShowTransaction
                    &&& address_set(
                        old(recipients)@,
                        final(recipients)@,
                        old(self).recipient_index as int,
                        old(self).chosen_account,
                    )
                },
            },
    {
        match message {
            Message::RecipientInput(input) => {
                self.recipient_input(input);
                AddRecipientAction::Idle
            },
            Message::SelectRadioButton(address) => {
                self.chosen_account = Some(address);
                AddRecipientAction::Idle
            },
            Message::Submit => self.submit(recipients),
        }
    }
}

/// The wallet's accounts that the screen offers, in order: all but the sender, each with
/// whether it is the one chosen.
pub open spec fn offered_accounts(
    accounts: Seq<(AccountAddress, Account)>,
    sender: Option<Seq<char>>,
    chosen: Option<Seq<char>>,
) -> Seq<(Account, bool)>
    decreases accounts.len(),
{
    if accounts.len() == 0 {
        Seq::empty()
    } else {
        let rest = offered_accounts(accounts.drop_last(), sender, chosen);
        let (key, account) = accounts.last();
        if sender == Some(key@) {
            rest
        } else {
            rest.push((account, chosen == Some(account.address@)))
        }
    }
}

impl AddRecipient {
    /// The accounts the screen offers as recipients.
    pub fn offered(&self, accounts: &KeyedList<AccountAddress, Account>) -> (r: Vec<(Account, bool)>)
        ensures
            r@ == offered_accounts(accounts.entries(), self@.from_account, self@.chosen_account),
    {
        let n = accounts.len();
        let mut r: Vec<(Account, bool)> = Vec::new();
        let mut i: usize = 0;
        while i < n
            invariant
                n == accounts.entries().len(),
                i <= n,
                r@ == offered_accounts(accounts.entries().take(i as int), self@.from_account, self@.chosen_account),
            decreases n - i,
        {
            let (key, account) = accounts.entry_at(i);
            proof {
                assert(accounts.entries().take(i + 1).drop_last() =~= accounts.entries().take(
                    i as int,
                ));
            }
            let is_sender = match &self.from_account {
                Some(sender) => key.same_text(sender),
                None => false,
            };
            if !is_sender {
                let is_chosen = match &self.chosen_account {
                    Some(c) => c.same_text(&account.address),
                    None => false,
                };
                r.push((account.clone(), is_chosen));
            }
            i += 1;
        }
        assert(accounts.entries().take(n as int) =~= accounts.entries());
        r
    }

    /// Whether the offered accounts can be clicked: not while an address is being typed.
    pub fn accounts_clickable(&self) -> (r: bool)
        ensures
            r == (self@.recipient_input.len() == 0),
    {
        self.recipient_input.as_str().is_empty()
    }

    /// Whether the Submit button is enabled: exactly when an account is chosen.
    pub fn submit_enabled(&self) -> (r: bool)
        ensures
            r == (self@.chosen_account is Some),
    {
        self.chosen_account.is_some()
    }
}

/// How many of the first `j` accounts are not the sender.
pub open spec fn others_before(accounts: Seq<(AccountAddress, Account)>, sender: Option<Seq<char>>, j: int) -> nat
    decreases j,
{
    if j <= 0 {
        0
    } else {
        others_before(accounts, sender, j - 1) + if sender == Some(accounts[j - 1].0@) {
            0nat
        } else {
            1nat
        }
    }
}

/// The count of accounts other than the sender among the first `j` reads only those accounts.
pub proof fn lemma_others_before_prefix(
    s: Seq<(AccountAddress, Account)>,
    t: Seq<(AccountAddress, Account)>,
    sender: Option<Seq<char>>,
    j: int,
)
    requires
        0 <= j <= s.len(),
        j <= t.len(),
        forall|i: int| 0 <= i < j ==> s[i] == t[i],
    ensures
        others_before(s, sender, j) == others_before(t, sender, j),
    decreases j,
{
    if j > 0 {
        lemma_others_before_prefix(s, t, sender, j - 1);
    }
}

/// An account other than the sender comes before every later one in the count.
pub proof fn lemma_others_before_grows(
    accounts: Seq<(AccountAddress, Account)>,
    sender: Option<Seq<char>>,
    j: int,
    k: int,
)
    requires
        0 <= j < k,
        sender != Some(accounts[j].0@),
    ensures
        others_before(accounts, sender, j) < others_before(accounts, sender, k),
    decreases k,
{
    if k > j + 1 {
        lemma_others_before_grows(accounts, sender, j, k - 1);
    }
}

/// The recipient screen offers every account of the wallet but the sender, in the wallet's
/// order (the `r`-th account other than the sender is the `r`-th offered), each marked
/// chosen exactly when it is the chosen account.
pub proof fn law_every_other_account_is_offered(
    accounts: Seq<(AccountAddress, Account)>,
    sender: Option<Seq<char>>,
    chosen: Option<Seq<char>>,
)
    ensures
        offered_accounts(accounts, sender, chosen).len() == others_before(
            accounts,
            sender,
            accounts.len() as int,
        ),
        forall|j: int|
            0 <= j < accounts.len() && sender != Some((#[trigger] accounts[j]).0@) ==> offered_accounts(
                accounts,
                sender,
                chosen,
            )[others_before(accounts, sender, j) as int] == (
                accounts[j].1,
                chosen == Some(accounts[j].1.address@),
            ),
    decreases accounts.len(),
{
    if accounts.len() > 0 {
        let n = accounts.len() - 1;
        let dl = accounts.drop_last();
        law_every_other_account_is_offered(dl, sender, chosen);
        assert forall|j: int| 0 <= j <= n implies others_before(dl, sender, j) == others_before(
            accounts,
            sender,
            j,
        ) by {
            lemma_others_before_prefix(dl, accounts, sender, j);
        }
        assert forall|j: int|
            0 <= j < accounts.len() && sender != Some((#[trigger] accounts[j]).0@) implies offered_accounts(
            accounts,
            sender,
            chosen,
        )[others_before(accounts, sender, j) as int] == (
            accounts[j].1,
            chosen == Some(accounts[j].1.address@),
        ) by {
            if j < n {
                assert(dl[j] == accounts[j]);
                lemma_others_before_grows(accounts, sender, j, n);
            }
        }
    }
}

} // verus!
