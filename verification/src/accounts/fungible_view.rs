//! One token of an account, with its icon (the same view under its other name).
pub use super::fungible::{FungibleView, Icon, TokenDetails, TokenLabels};
