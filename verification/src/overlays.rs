//! The dialogs that open over the main view: adding an account and receiving to an address.
pub mod add_account;
pub mod overlay;
pub mod receive;
