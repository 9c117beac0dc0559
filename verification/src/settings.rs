//! The settings tab: the gateways, the security switches, and the changes it asks for.
use vstd::prelude::*;

use crate::model::GatewayConfig;

verus! {

/// A settings change, applied to the profile and stored by the caller.
pub enum Action {
    SwitchGateway(GatewayConfig),
    SetAppLockEnabled(bool),
    SetDeveloperMode(bool),
}

pub struct SettingsView;

impl SettingsView {
    pub fn new() -> (r: Self) {
        SettingsView
    }
}

/// Whether a saved gateway is the one in use: the tab highlights it and offers no switch to
/// it.
pub fn is_current_gateway(gateway: &GatewayConfig, current: &GatewayConfig) -> (r: bool)
    ensures
        r == (gateway.url@ == current.url@),
{
    gateway.url == current.url
}

} // verus!
