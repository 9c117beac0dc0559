//! The transfer tab driven by messages that act on the tab's view: choosing the sender, the
//! recipients and their assets.
use vstd::prelude::*;

use crate::app_data::AppData;
use crate::model::{Account, AccountAddress, ResourceAddress};

use super::add_assets;
use super::add_recipient::{address_set, AddRecipient, AddRecipientView};
use super::create_transaction::{
    assets_screen_stepped, opened_add_assets, opened_choose_recipient, recipient_added,
    recipient_assets_changed, recipient_removed, screen_index_allowed, screen_view,
    step_assets_screen, Screen, ScreenView,
};
use super::recipients::{
    remove_recipient, spec_update_resource_amount, update_resource_amount, AmountInput, Recipient,
};
use super::transaction_view::{keeps_all_but_recipients, keeps_details, keeps_form, TransactionView};

verus! {

/// The messages of the asset screen.
pub type AddAssetsMessage = add_assets::Message;

pub enum ChooseRecipientMessage {
    RecipientInput(String),
    SelectRadioButton(AccountAddress),
    Submit,
}

pub enum TransactionMessage {
    SelectAccount(Account),
    UpdateMessage(String),
    RemoveRecipient(usize),
    UpdateResourceAmount(usize, ResourceAddress, AmountInput),
    SelectRecipient(usize),
    AddRecipient,
    ChooseRecipientMessage(ChooseRecipientMessage),
    /// Open the asset screen for a recipient, listing the given account's assets.
    AddAssets { recipient_index: usize, from_account: AccountAddress },
    AddAssetsMessage(AddAssetsMessage),
}

/// A message of the recipient screen: typing keeps the text as it is, a click chooses an
/// account, submitting sets the recipient's address and shows the form again.
pub open spec fn chosen(
    before: TransactionView,
    after: TransactionView,
    m: ChooseRecipientMessage,
) -> bool {
    &&& keeps_details(before, after)
    &&& before.screen matches Screen::ChooseRecipient(s) && match m {
        ChooseRecipientMessage::RecipientInput(text) => {
            &&& after.recipients@ == before.recipients@
            &&& screen_view(after.screen) == ScreenView::ChooseRecipient(
                AddRecipientView { recipient_input: text@, ..s@ },
            )
        },
        ChooseRecipientMessage::SelectRadioButton(address) => {
            &&& after.recipients@ == before.recipients@
            &&& screen_view(after.screen) == ScreenView::ChooseRecipient(
                AddRecipientView { chosen_account: Some(address@), ..s@ },
            )
        },
        ChooseRecipientMessage::Submit => {
            &&& after.screen is Transaction
            &&& address_set(
                before.recipients@,
                after.recipients@,
                s.recipient_index as int,
                s.chosen_account,
            )
        },
    }
}

/// The view after a message.
pub open spec fn processed(
    before: TransactionView,
    after: TransactionView,
    message: TransactionMessage,
    data: AppData,
) -> bool {
    match message {
        TransactionMessage::SelectAccount(account) => {
            &&& after.from_account == Some(account)
            &&& after.resource_amounts == before.resource_amounts
            &&& after.message == before.message
            &&& after.recipients@ == before.recipients@
            &&& after.screen == before.screen
        },
        TransactionMessage::UpdateMessage(text) => {
            &&& after.from_account == before.from_account
            &&& after.resource_amounts == before.resource_amounts
            &&& after.message == text
            &&& after.recipients@ == before.recipients@
            &&& after.screen == before.screen
        },
        TransactionMessage::RemoveRecipient(i) => keeps_all_but_recipients(before, after)
            && recipient_removed(before.recipients@, after.recipients@, i as int, true),
        TransactionMessage::UpdateResourceAmount(i, resource, input) => keeps_all_but_recipients(
            before,
            after,
        ) && recipient_assets_changed(
            before.recipients@,
            after.recipients@,
            i as int,
            spec_update_resource_amount(before.recipients@[i as int].resources@, resource@, input),
        ),
        TransactionMessage::SelectRecipient(i) => keeps_form(before, after) && screen_view(
            after.screen,
        ) == opened_choose_recipient(None, i),
        TransactionMessage::AddRecipient => keeps_all_but_recipients(before, after)
            && recipient_added(before.recipients@, after.recipients@),
        TransactionMessage::ChooseRecipientMessage(m) => chosen(before, after, m),
        TransactionMessage::AddAssets { recipient_index, from_account } => keeps_form(
            before,
            after,
        ) && screen_view(after.screen) == opened_add_assets(
            from_account@,
            recipient_index,
            before.recipients@[recipient_index as int],
        ),
        TransactionMessage::AddAssetsMessage(m) => keeps_details(before, after)
            && assets_screen_stepped(
            before.screen,
            before.recipients@,
            after.screen,
            after.recipients@,
            m,
            data,
        ),
    }
}

/// The messages that the view can take: the indexes must name a recipient, and a screen's
/// messages come while that screen is open.
pub open spec fn process_allowed(v: TransactionView, message: TransactionMessage) -> bool {
    match message {
        TransactionMessage::RemoveRecipient(i) => v.recipients@.len() == 1 ==> i == 0,
        TransactionMessage::UpdateResourceAmount(i, _, _) => i < v.recipients@.len(),
        TransactionMessage::AddAssets { recipient_index, .. } => recipient_index
            < v.recipients@.len(),
        TransactionMessage::AddAssetsMessage(m) => v.screen is AddAssets && screen_index_allowed(
            v.screen,
            v.recipients@,
            Some(m),
            None,
        ),
        TransactionMessage::ChooseRecipientMessage(m) => v.screen is ChooseRecipient && (
        m is Submit ==> v.screen->ChooseRecipient_0.recipient_index < v.recipients@.len()),
        _ => true,
    }
}

impl ChooseRecipientMessage {
    /// Applies the message to the recipient screen, which must be open.
    pub fn process(self, parent: &mut TransactionView)
        requires
            old(parent).screen is ChooseRecipient,
            self is Submit ==> old(parent).screen->ChooseRecipient_0.recipient_index < old(
                parent,
            ).recipients@.len(),
        ensures
            chosen(*old(parent), *final(parent), self),
    {
        let mut taken = Screen::Transaction;
        std::mem::swap(&mut taken, &mut parent.screen);
        match taken {
            Screen::ChooseRecipient(mut choose) => {
                match self {
                    ChooseRecipientMessage::RecipientInput(input) => {
                        choose.recipient_input = input;
                        parent.screen = Screen::ChooseRecipient(choose);
                    },
                    ChooseRecipientMessage::SelectRadioButton(address) => {
                        choose.chosen_account = Some(address);
                        parent.screen = Screen::ChooseRecipient(choose);
                    },
                    ChooseRecipientMessage::Submit => {
                        let mut r = parent.recipients.remove(choose.recipient_index);
                        r.address = choose.chosen_account.take();
                        parent.recipients.insert(choose.recipient_index, r);
                    },
                }
            },
            other => {
                parent.screen = other;
            },
        }
    }
}

impl AddAssetsMessage {
    /// Applies the message to the asset screen, which must be open.
    pub fn process(self, view: &mut TransactionView, data: &AppData)
        requires
            old(view).screen is AddAssets,
            screen_index_allowed(old(view).screen, old(view).recipients@, Some(self), None),
        ensures
            keeps_details(*old(view), *final(view)),
            assets_screen_stepped(
                old(view).screen,
                old(view).recipients@,
                final(view).screen,
                final(view).recipients@,
                self,
                *data,
            ),
    {
        step_assets_screen(&mut view.screen, &mut view.recipients, self, data);
    }
}

impl TransactionMessage {
    /// Applies the message to the transfer tab's view.
    pub fn process(self, view: &mut TransactionView, data: &AppData)
        requires
            process_allowed(*old(view), self),
        ensures
            processed(*old(view), *final(view), self, *data),
            old(view).recipients@.len() > 0 ==> final(view).recipients@.len() > 0,
    {
        match self {
            TransactionMessage::SelectAccount(account) => {
                view.from_account = Some(account);
            },
            TransactionMessage::UpdateMessage(text) => {
                view.message = text;
            },
            TransactionMessage::RemoveRecipient(i) => {
                remove_recipient(&mut view.recipients, i, true);
            },
            TransactionMessage::UpdateResourceAmount(i, resource, input) => {
                update_resource_amount(&mut view.recipients, i, &resource, input);
            },
            TransactionMessage::SelectRecipient(i) => {
                view.screen = Screen::ChooseRecipient(AddRecipient::new(i, None));
            },
            TransactionMessage::AddRecipient => {
                let ghost before = view.recipients@;
                view.recipients.push(Recipient::new(None));
                assert(view.recipients@.take(before.len() as int) =~= before);
            },
            TransactionMessage::ChooseRecipientMessage(m) => {
                m.process(view);
            },
            TransactionMessage::AddAssets { recipient_index, from_account } => {
                view.create_new_add_assets_view(recipient_index, from_account);
            },
            TransactionMessage::AddAssetsMessage(m) => {
                m.process(view, data);
            },
        }
    }
}

} // verus!
