//! Which dialog is open, and how its messages reach it.
use vstd::prelude::*;

use crate::model::AccountAddress;

use super::add_account::{self, AddAccount};
use super::receive::{self, Receive, ReceiveAction};

verus! {

pub enum Message {
    AddAccountMessage(add_account::Message),
    ReceiveMessage(receive::Message),
}

/// A request to open a dialog.
pub enum SpawnOverlay {
    AddAccount,
    Receive(AccountAddress),
}

pub enum Overlay {
    AddAccount(AddAccount),
    Receive(Receive),
}

/// What the caller is left to do after a message of a dialog.
pub enum OverlayAction {
    Idle,
    CopyToClipboard(String),
    /// Create the account that the add-account dialog describes: decrypt the recovery
    /// phrase with its password, derive the account and store it.
    SubmitAccount,
}

/// What a message does to the open dialog, and what it leaves to the caller.
pub open spec fn overlay_updated(
    before: Overlay,
    after: Overlay,
    m: Message,
    action: OverlayAction,
) -> bool {
    match before {
        Overlay::AddAccount(a) => match m {
            Message::AddAccountMessage(am) => {
                &&& after matches Overlay::AddAccount(b) && b@ == add_account::spec_update(a@, am)
                &&& action is Idle
            },
            _ => after == before && action is Idle,
        },
        Overlay::Receive(v) => match m {
            Message::ReceiveMessage(receive::Message::CopyAddress(t)) => {
                &&& after matches Overlay::Receive(w) && w.address == v.address
                    && w.notification is Success
                &&& action == OverlayAction::CopyToClipboard(t)
            },
            _ => after == before && action is Idle,
        },
    }
}

impl Overlay {
    /// The dialog that a request opens, in its first state.
    pub fn spawn(request: SpawnOverlay) -> (r: Self)
        ensures
            match request {
                SpawnOverlay::AddAccount => r matches Overlay::AddAccount(a) && a@.view
                    == add_account::Screen::InputAccountName && a@.account_name.len() == 0
                    && a@.password.len() == 0 && a@.notification.len() == 0,
                SpawnOverlay::Receive(address) => r matches Overlay::Receive(v) && v.address
                    == address && v.notification is Hidden,
            },
    {
        match request {
            SpawnOverlay::AddAccount => Overlay::AddAccount(AddAccount::new()),
            SpawnOverlay::Receive(address) => Overlay::Receive(Receive::new(address)),
        }
    }

    /// Passes a message to the open dialog; a message meant for the other dialog is dropped.
    pub fn update(&mut self, message: Message) -> (action: OverlayAction)
        ensures
            overlay_updated(*old(self), *final(self), message, action),
    {
        match message {
            Message::AddAccountMessage(m) => {
                if let Overlay::AddAccount(a) = self {
                    a.update(m);
                }
                OverlayAction::Idle
            },
            Message::ReceiveMessage(m) => {
                if let Overlay::Receive(v) = self {
                    match v.update(m) {
                        ReceiveAction::CopyToClipboard(t) => OverlayAction::CopyToClipboard(t),
                    }
                } else {
                    OverlayAction::Idle
                }
            },
        }
    }
}

/// A message for the add-account dialog, sent through `OverlayMessage`; `Next` continues.
pub enum AddAccountMessage {
    InputAccountName(String),
    InputPassword(String),
    Next,
    Submit,
}

/// A message for the receive dialog, sent through `OverlayMessage`.
pub enum ReceiveMessage {
    CopyAddress(String),
}

/// A message for whichever dialog is open, acting on the dialog slot itself.
pub enum OverlayMessage {
    AddAccountMessage(AddAccountMessage),
    ReceiveMessage(ReceiveMessage),
}

/// What an `AddAccountMessage` does to the add-account dialog.
pub open spec fn spec_add_account_message(
    a: add_account::AddAccountView,
    m: AddAccountMessage,
) -> add_account::AddAccountView {
    match m {
        AddAccountMessage::InputAccountName(input) => add_account::spec_update_account_name(
            a,
            input@,
        ),
        AddAccountMessage::InputPassword(input) => add_account::AddAccountView {
            password: input@,
            ..a
        },
        AddAccountMessage::Next => add_account::spec_next(a),
        AddAccountMessage::Submit => a,
    }
}

impl AddAccountMessage {
    /// Handles the message when the add-account dialog is open; asks for the account to be
    /// created on `Submit`.
    pub fn update(self, overlay: &mut Option<Overlay>) -> (action: OverlayAction)
        ensures
            match *old(overlay) {
                Some(Overlay::AddAccount(a)) => (*final(overlay) matches Some(
                    Overlay::AddAccount(b),
                ) && b@ == spec_add_account_message(a@, self)) && (if self is Submit {
                    action is SubmitAccount
                } else {
                    action is Idle
                }),
                _ => *final(overlay) == *old(overlay) && action is Idle,
            },
    {
        if let Some(Overlay::AddAccount(add_account_view)) = overlay {
            match self {
                AddAccountMessage::InputAccountName(input) => {
                    Self::update_account_name(input, add_account_view);
                    OverlayAction::Idle
                },
                AddAccountMessage::InputPassword(input) => {
                    Self::update_password(input, add_account_view);
                    OverlayAction::Idle
                },
                AddAccountMessage::Next => {
                    Self::next(add_account_view);
                    OverlayAction::Idle
                },
                AddAccountMessage::Submit => OverlayAction::SubmitAccount,
            }
        } else {
            OverlayAction::Idle
        }
    }

    pub fn update_account_name(input: String, add_account_view: &mut AddAccount)
        ensures
            final(add_account_view)@ == add_account::spec_update_account_name(
                old(add_account_view)@,
                input@,
            ),
    {
        add_account_view.update_account_name(input);
    }

    pub fn update_password(input: String, add_account_view: &mut AddAccount)
        ensures
            final(add_account_view)@ == (add_account::AddAccountView {
                password: input@,
                ..old(add_account_view)@
            }),
    {
        add_account_view.update_password(input);
    }

    pub fn next(add_account_view: &mut AddAccount)
        ensures
            final(add_account_view)@ == add_account::spec_next(old(add_account_view)@),
    {
        add_account_view.next();
    }
}

impl ReceiveMessage {
    /// Copies the address when the receive dialog is open.
    pub fn update(self, overlay: &mut Option<Overlay>) -> (action: OverlayAction)
        ensures
            match *old(overlay) {
                Some(Overlay::Receive(v)) => (*final(overlay) matches Some(Overlay::Receive(w))
                    && w.address == v.address && w.notification is Success) && (match self {
                    ReceiveMessage::CopyAddress(t) => action == OverlayAction::CopyToClipboard(t),
                }),
                _ => *final(overlay) == *old(overlay) && action is Idle,
            },
    {
        if let Some(Overlay::Receive(receive_view)) = overlay {
            match self {
                ReceiveMessage::CopyAddress(address) => {
                    match receive_view.update(receive::Message::CopyAddress(address)) {
                        ReceiveAction::CopyToClipboard(t) => OverlayAction::CopyToClipboard(t),
                    }
                },
            }
        } else {
            OverlayAction::Idle
        }
    }
}

/// The dialog slot after a message for the open dialog, and what is left to the caller.
pub open spec fn overlay_message_processed(
    before: Option<Overlay>,
    after: Option<Overlay>,
    m: OverlayMessage,
    action: OverlayAction,
) -> bool {
    match m {
        OverlayMessage::AddAccountMessage(am) => match before {
            Some(Overlay::AddAccount(a)) => (after matches Some(
                Overlay::AddAccount(b),
            ) && b@ == spec_add_account_message(a@, am)) && (if am is Submit {
                action is SubmitAccount
            } else {
                action is Idle
            }),
            _ => after == before && action is Idle,
        },
        OverlayMessage::ReceiveMessage(ReceiveMessage::CopyAddress(t)) => match before {
            Some(Overlay::Receive(v)) => (after matches Some(
                Overlay::Receive(w),
            ) && w.address == v.address && w.notification is Success) && action
                == OverlayAction::CopyToClipboard(t),
            _ => after == before && action is Idle,
        },
    }
}

impl OverlayMessage {
    /// Passes the message to the open dialog; a message for another dialog is dropped.
    pub fn update(self, overlay: &mut Option<Overlay>) -> (action: OverlayAction)
        ensures
            overlay_message_processed(*old(overlay), *final(overlay), self, action),
    {
        match self {
            OverlayMessage::AddAccountMessage(m) => m.update(overlay),
            OverlayMessage::ReceiveMessage(m) => m.update(overlay),
        }
    }
}

} // verus!
