//! Unlocking the wallet: typing the password and what a failed login leaves on screen.
use vstd::prelude::*;

use crate::model::AppError;
use crate::secret::Password;

verus! {

pub enum LoginMessage {
    TextInputChanged(String),
    Login,
}

/// The login screen.
pub struct LoginScreen {
    pub password: Password,
}

/// Where the application stands.
pub enum AppState {
    /// Waiting for the password.
    Locked(LoginScreen),
    Unlocked,
    /// A fatal error, with its text.
    Error(String),
}

/// What the caller is left to do after a message of the login screen.
#[derive(PartialEq, Eq, Structural, Clone, Copy, Debug)]
pub enum LoginAction {
    Idle,
    /// Derive the database key from the typed password, log in, report the result with
    /// `apply_login_result`, then load the accounts, resources and icons and sync the accounts.
    Login,
}

impl LoginMessage {
    /// Typing replaces the password on the locked screen (the typed text is wiped); logging in
    /// is asked for from the locked screen only.
    pub fn process(self, state: &mut AppState) -> (action: LoginAction)
        ensures
            match self {
                LoginMessage::TextInputChanged(input) => {
                    &&& action is Idle
                    &&& match *old(state) {
                        AppState::Locked(_) => (*final(state)) matches AppState::Locked(s)
                            && s.password@ == input@,
                        _ => *final(state) == *old(state),
                    }
                },
                LoginMessage::Login => {
                    &&& *final(state) == *old(state)
                    &&& action == (if *old(state) is Locked {
                        LoginAction::Login
                    } else {
                        LoginAction::Idle
                    })
                },
            },
    {
        match self {
            LoginMessage::TextInputChanged(input) => {
                let mut input = input;
                match state {
                    AppState::Locked(screen) => {
                        screen.password.replace_with(&mut input);
                    },
                    _ => {},
                }
                LoginAction::Idle
            },
            LoginMessage::Login => {
                if let AppState::Locked(_) = state {
                    LoginAction::Login
                } else {
                    LoginAction::Idle
                }
            },
        }
    }
}

/// A fatal login error puts the application in its error state with the error's text; any
/// other outcome leaves the state to what the login did.
pub fn apply_login_result(state: &mut AppState, result: Result<(), AppError>)
    ensures
        match result {
            Err(AppError::Fatal(text)) => *final(state) == AppState::Error(text),
            _ => *final(state) == *old(state),
        },
{
    match result {
        Err(AppError::Fatal(text)) => {
            *state = AppState::Error(text);
        },
        _ => {},
    }
}

} // verus!
