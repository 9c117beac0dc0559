//! Composing a transfer: the sender, the recipients with the assets and amounts for each, and
//! the screens that pick recipients and assets.
pub mod add_assets;
pub mod add_recipient;
pub mod choose_recipient;
pub mod create_transaction;
pub mod recipients;
pub mod transaction_message;
pub mod transaction_view;
