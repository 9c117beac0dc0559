//! The history tab: the transactions of one chosen account, loaded from the wallet's store.
use vstd::prelude::*;

use crate::model::{Account, AccountAddress, Transaction};

verus! {

pub const LOADING: &'static str = "Loading…";

pub const NO_TRANSACTIONS: &'static str = "No transactions yet — sync to fetch history.";

pub enum Message {
    SelectAccount(Account),
    /// The account's stored transactions finished loading, or the text of the error.
    Loaded(Result<Vec<Transaction>, String>),
}

pub struct HistoryView {
    pub selected: Option<Account>,
    pub transactions: Vec<Transaction>,
    /// Shown in place of the list while there is no list to show.
    pub status: Option<String>,
}

/// What the caller is left to do after a message of the tab.
pub enum HistoryAction {
    Idle,
    /// Read the stored transactions of this account and send them back with `Loaded`.
    LoadTransactions(AccountAddress),
}

pub open spec fn status_view(s: Option<String>) -> Option<Seq<char>> {
    match s {
        Some(t) => Some(t@),
        None => None,
    }
}

impl HistoryView {
    pub fn new() -> (r: Self)
        ensures
            r.selected is None,
            r.transactions@.len() == 0,
            r.status is None,
    {
        HistoryView { selected: None, transactions: Vec::new(), status: None }
    }

    /// Choosing an account empties the list and starts loading; a loaded list is shown, with
    /// a hint when it is empty; an error shows its text.
    pub fn update(&mut self, message: Message) -> (action: HistoryAction)
        ensures
            match message {
                Message::SelectAccount(account) => {
                    &&& final(self).selected == Some(account)
                    &&& status_view(final(self).status) == Some(LOADING@)
                    &&& final(self).transactions@.len() == 0
                    &&& action == HistoryAction::LoadTransactions(account.address)
                },
                Message::Loaded(Ok(transactions)) => {
                    &&& final(self).selected == old(self).selected
                    &&& final(self).transactions == transactions
                    &&& status_view(final(self).status) == (if transactions@.len() == 0 {
                        Some(NO_TRANSACTIONS@)
                    } else {
                        None
                    })
                    &&& action is Idle
                },
                Message::Loaded(Err(error)) => {
                    &&& final(self).selected == old(self).selected
                    &&& final(self).transactions == old(self).transactions
                    &&& final(self).status == Some(error)
                    &&& action is Idle
                },
            },
    {
        match message {
            Message::SelectAccount(account) => {
                let address = account.address.clone();
                self.selected = Some(account);
                self.status = Some(String::from_str(LOADING));
                self.transactions.clear();
                HistoryAction::LoadTransactions(address)
            },
            Message::Loaded(result) => {
                match result {
                    Ok(transactions) => {
                        self.status = if transactions.len() == 0 {
                            Some(String::from_str(NO_TRANSACTIONS))
                        } else {
                            None
                        };
                        self.transactions = transactions;
                    },
                    Err(error) => {
                        self.status = Some(error);
                    },
                }
                HistoryAction::Idle
            },
        }
    }
}

} // verus!
