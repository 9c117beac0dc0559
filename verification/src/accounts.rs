//! The accounts tab: the list of accounts, one account's tokens and NFT collections, and one
//! collection's NFTs.
pub mod account_view;
pub mod accounts_message;
pub mod accounts_view;
pub mod fungible;
pub mod fungible_view;
pub mod fungibles;
pub mod nfts;
pub mod non_fungible;
pub mod non_fungibles;
