//! State and update logic of a desktop wallet's user interface.
use vstd::prelude::*;

pub mod keyed;
pub mod ranks;
pub mod model;
pub mod secret;
pub mod setup;
pub mod text;
pub mod app_data;
pub mod overlays;
pub mod transaction;
pub mod accounts;
pub mod personas;
pub mod history;
pub mod settings;
pub mod app_view;
pub mod app_view_message;
pub mod login;
pub mod update;
pub mod common;
pub mod window;

verus! {

} // verus!
