//! The transfer form as the transfer tab shows it: the sending account, the recipients with
//! their assets and a plain message.
use vstd::prelude::*;

use crate::app_data::AppData;
use crate::keyed::KeyedList;
use crate::model::{Account, AccountAddress, ResourceAddress};

use super::add_assets;
use super::add_recipient::{self, AddRecipient};
use super::create_transaction::{
    assets_screen_stepped, opened_add_assets, opened_choose_recipient, recipient_added,
    recipient_assets_changed, recipient_removed, recipient_screen_stepped, screen_index_allowed,
    screen_view, step_assets_screen, step_recipient_screen, Screen,
};
use super::recipients::{
    clone_selection, remove_asset, remove_recipient, spec_update_resource_amount,
    update_resource_amount, AmountInput, Recipient,
};

verus! {

pub enum Message {
    OverView,
    SelectAccount(Account),
    UpdateMessage(String),
    RemoveRecipient(usize),
    UpdateResourceAmount(usize, ResourceAddress, AmountInput),
    SelectRecipient(usize),
    AddRecipient,
    ChooseRecipientMessage(add_recipient::Message),
    /// Open the asset screen for a recipient, listing the given account's assets.
    AddAssets { recipient_index: usize, from_account: AccountAddress },
    AddAssetsMessage(add_assets::Message),
    RemoveAsset(usize, ResourceAddress),
}

pub struct TransactionView {
    pub from_account: Option<Account>,
    /// The balances of the sending account that were readable as decimals, as their text.
    pub resource_amounts: KeyedList<ResourceAddress, String>,
    pub recipients: Vec<Recipient>,
    pub message: String,
    pub screen: Screen,
}

/// The sender, the balances and the message are as they were.
pub open spec fn keeps_details(before: TransactionView, after: TransactionView) -> bool {
    &&& after.from_account == before.from_account
    &&& after.resource_amounts == before.resource_amounts
    &&& after.message == before.message
}

/// Only the screen may have changed.
pub open spec fn keeps_form(before: TransactionView, after: TransactionView) -> bool {
    keeps_details(before, after) && after.recipients@ == before.recipients@
}

/// Only the recipients may have changed.
pub open spec fn keeps_all_but_recipients(before: TransactionView, after: TransactionView) -> bool {
    keeps_details(before, after) && after.screen == before.screen
}

/// The view after a message.
pub open spec fn view_updated(
    before: TransactionView,
    after: TransactionView,
    message: Message,
    data: AppData,
) -> bool {
    match message {
        Message::OverView => keeps_form(before, after) && after.screen is Transaction,
        Message::SelectAccount(account) => {
            &&& after.from_account == Some(account)
            &&& after.resource_amounts == before.resource_amounts
            &&& after.message == before.message
            &&& after.recipients@ == before.recipients@
            &&& after.screen == before.screen
        },
        Message::UpdateMessage(text) => {
            &&& after.from_account == before.from_account
            &&& after.resource_amounts == before.resource_amounts
            &&& after.message == text
            &&& after.recipients@ == before.recipients@
            &&& after.screen == before.screen
        },
        Message::RemoveRecipient(i) => keeps_all_but_recipients(before, after) && recipient_removed(
            before.recipients@,
            after.recipients@,
            i as int,
            false,
        ),
        Message::UpdateResourceAmount(i, resource, input) => keeps_all_but_recipients(
            before,
            after,
        ) && recipient_assets_changed(
            before.recipients@,
            after.recipients@,
            i as int,
            spec_update_resource_amount(before.recipients@[i as int].resources@, resource@, input),
        ),
        Message::SelectRecipient(i) => keeps_form(before, after) && screen_view(after.screen)
            == opened_choose_recipient(None, i),
        Message::AddRecipient => keeps_all_but_recipients(before, after) && recipient_added(
            before.recipients@,
            after.recipients@,
        ),
        Message::AddAssets { recipient_index, from_account } => keeps_form(before, after)
            && screen_view(after.screen) == opened_add_assets(
            from_account@,
            recipient_index,
            before.recipients@[recipient_index as int],
        ),
        Message::AddAssetsMessage(m) => keeps_details(before, after) && assets_screen_stepped(
            before.screen,
            before.recipients@,
            after.screen,
            after.recipients@,
            m,
            data,
        ),
        Message::ChooseRecipientMessage(m) => keeps_details(before, after)
            && recipient_screen_stepped(
            before.screen,
            before.recipients@,
            after.screen,
            after.recipients@,
            m,
        ),
        Message::RemoveAsset(i, resource) => keeps_all_but_recipients(before, after)
            && recipient_assets_changed(
            before.recipients@,
            after.recipients@,
            i as int,
            before.recipients@[i as int].resources@.remove(resource@),
        ),
    }
}

/// The messages on which the view indexes a recipient that must be there.
pub open spec fn view_update_allowed(v: TransactionView, message: Message) -> bool {
    match message {
        Message::RemoveRecipient(i) => v.recipients@.len() == 1 ==> i == 0,
        Message::UpdateResourceAmount(i, _, _) => i < v.recipients@.len(),
        Message::RemoveAsset(i, _) => i < v.recipients@.len(),
        Message::AddAssets { recipient_index, .. } => recipient_index < v.recipients@.len(),
        Message::AddAssetsMessage(m) => screen_index_allowed(v.screen, v.recipients@, Some(m), None),
        Message::ChooseRecipientMessage(m) => screen_index_allowed(
            v.screen,
            v.recipients@,
            None,
            Some(m),
        ),
        _ => true,
    }
}

impl TransactionView {
    /// A view with one empty recipient, from the given account with its known balances.
    pub fn new(
        from_account: Option<Account>,
        account_resources: Option<KeyedList<ResourceAddress, String>>,
    ) -> (r: Self)
        ensures
            r.from_account == from_account,
            account_resources matches Some(m) ==> r.resource_amounts == m,
            account_resources is None ==> r.resource_amounts@ == Map::<Seq<char>, String>::empty(),
            r.recipients@.len() == 1,
            r.recipients@[0].address is None,
            r.recipients@[0].resources@ == Map::<Seq<char>, (String, String)>::empty(),
            r.message@ == Seq::<char>::empty(),
            r.screen is Transaction,
    {
        let resource_amounts = match account_resources {
            Some(m) => m,
            None => KeyedList::new(),
        };
        let mut recipients: Vec<Recipient> = Vec::new();
        recipients.push(Recipient::new(None));
        TransactionView {
            from_account,
            resource_amounts,
            recipients,
            message: String::new(),
            screen: Screen::Transaction,
        }
    }

    /// A view that sends to the given address, with no sender chosen yet.
    pub fn from_recipient(address: AccountAddress) -> (r: Self)
        ensures
            r.from_account is None,
            r.resource_amounts@ == Map::<Seq<char>, String>::empty(),
            r.recipients@.len() == 1,
            r.recipients@[0].address == Some(address),
            r.recipients@[0].resources@ == Map::<Seq<char>, (String, String)>::empty(),
            r.message@ == Seq::<char>::empty(),
            r.screen is Transaction,
    {
        let mut recipients: Vec<Recipient> = Vec::new();
        recipients.push(Recipient::new(Some(address)));
        TransactionView {
            from_account: None,
            resource_amounts: KeyedList::new(),
            recipients,
            message: String::new(),
            screen: Screen::Transaction,
        }
    }

    /// Opens the asset screen for a recipient, with the recipient's assets chosen.
    pub fn create_new_add_assets_view(&mut self, recipient_index: usize, from_account: AccountAddress)
        requires
            recipient_index < old(self).recipients@.len(),
        ensures
            keeps_form(*old(self), *final(self)),
            screen_view(final(self).screen) == opened_add_assets(
                from_account@,
                recipient_index,
                old(self).recipients@[recipient_index as int],
            ),
    {
        let selected = clone_selection(&self.recipients[recipient_index].resources);
        self.screen = Screen::AddAssets(
            add_assets::AddAssets::new(from_account, recipient_index, selected),
        );
    }

    /// Handles a message of the view.
    pub fn update(&mut self, message: Message, data: &AppData)
        requires
            view_update_allowed(*old(self), message),
        ensures
            view_updated(*old(self), *final(self), message, *data),
            old(self).recipients@.len() > 0 ==> final(self).recipients@.len() > 0,
    {
        match message {
            Message::OverView => {
                self.screen = Screen::Transaction;
            },
            Message::SelectAccount(account) => {
                self.from_account = Some(account);
            },
            Message::UpdateMessage(text) => {
                self.message = text;
            },
            Message::RemoveRecipient(i) => {
                remove_recipient(&mut self.recipients, i, false);
            },
            Message::UpdateResourceAmount(i, resource, input) => {
                update_resource_amount(&mut self.recipients, i, &resource, input);
            },
            Message::SelectRecipient(i) => {
                self.screen = Screen::ChooseRecipient(AddRecipient::new(i, None));
            },
            Message::AddRecipient => {
                let ghost before = self.recipients@;
                self.recipients.push(Recipient::new(None));
                assert(self.recipients@.take(before.len() as int) =~= before);
            },
            Message::AddAssets { recipient_index, from_account } => {
                self.create_new_add_assets_view(recipient_index, from_account);
            },
            Message::AddAssetsMessage(m) => {
                step_assets_screen(&mut self.screen, &mut self.recipients, m, data);
            },
            Message::ChooseRecipientMessage(m) => {
                step_recipient_screen(&mut self.screen, &mut self.recipients, m);
            },
            Message::RemoveAsset(i, resource) => {
                remove_asset(&mut self.recipients, i, &resource);
            },
        }
    }
}

} // verus!
