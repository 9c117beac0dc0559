//! The main window.
use vstd::prelude::*;

verus! {

/// The application's main window; its look is the theme's.
pub struct MainWindow;

} // verus!
