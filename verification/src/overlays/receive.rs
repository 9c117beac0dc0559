//! The dialog that shows an account's address for receiving, with a button that copies it.
use vstd::prelude::*;

use crate::model::AccountAddress;

verus! {

pub const COPIED_NOTICE: &'static str = "Address copied to clipboard";

pub enum Message {
    CopyAddress(String),
}

/// The banner above the address.
pub enum Notification {
    /// No banner.
    Hidden,
    Success(String),
    Error(String),
}

pub struct Receive {
    pub notification: Notification,
    pub address: AccountAddress,
}

/// What the caller is left to do after a message of the dialog.
pub enum ReceiveAction {
    /// Write this text to the clipboard.
    CopyToClipboard(String),
}

impl Receive {
    pub fn new(address: AccountAddress) -> (r: Self)
        ensures
            r.notification is Hidden,
            r.address == address,
    {
        Receive { notification: Notification::Hidden, address }
    }

    /// Copying the address: the banner confirms it and the address goes to the clipboard.
    pub fn update(&mut self, message: Message) -> (action: ReceiveAction)
        ensures
            final(self).address == old(self).address,
            final(self).notification matches Notification::Success(text) && text@
                == COPIED_NOTICE@,
            match message {
                Message::CopyAddress(address) => action matches ReceiveAction::CopyToClipboard(t)
                    && t == address,
            },
    {
        match message {
            Message::CopyAddress(address) => {
                self.notification = Notification::Success(String::from_str(COPIED_NOTICE));
                ReceiveAction::CopyToClipboard(address)
            },
        }
    }
}

impl Clone for Notification {
    fn clone(&self) -> (r: Self)
        ensures
            r == *self,
    {
        match self {
            Notification::Hidden => Notification::Hidden,
            Notification::Success(t) => Notification::Success(t.clone()),
            Notification::Error(t) => Notification::Error(t.clone()),
        }
    }
}

impl Clone for Receive {
    /// A copy of the dialog: the same address and banner.
    fn clone(&self) -> (r: Self)
        ensures
            r == *self,
    {
        Receive { notification: self.notification.clone(), address: self.address.clone() }
    }
}

} // verus!
