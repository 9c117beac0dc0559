//! Messages that any screen can send: copy a text, log in, show a notice.
use vstd::prelude::*;

use crate::app_view::AppView;

verus! {

pub enum CommonMessage {
    CopyToClipBoard(String),
    /// Log in with a database key that was already derived.
    PerformLogin(Vec<u8>),
    Notify(String),
}

/// What the caller is left to do after a common message.
pub enum CommonAction {
    Idle,
    CopyToClipboard(String),
    Login,
}

impl CommonMessage {
    /// A notice is shown on the main screen; copying and logging in are left to the caller.
    pub fn process(self, view: &mut AppView) -> (action: CommonAction)
        ensures
            final(view).active_tab == old(view).active_tab,
            final(view).overlay == old(view).overlay,
            match self {
                CommonMessage::CopyToClipBoard(text) => final(view).notification == old(
                    view,
                ).notification && action == CommonAction::CopyToClipboard(text),
                CommonMessage::PerformLogin(_) => final(view).notification == old(view).notification
                    && action is Login,
                CommonMessage::Notify(text) => final(view).notification == Some(text)
                    && action is Idle,
            },
    {
        match self {
            CommonMessage::CopyToClipBoard(text) => CommonAction::CopyToClipboard(text),
            CommonMessage::PerformLogin(_) => CommonAction::Login,
            CommonMessage::Notify(text) => {
                view.notification = Some(text);
                CommonAction::Idle
            },
        }
    }
}

} // verus!
