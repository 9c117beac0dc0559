//! What the background work delivers to the data in memory: a sync's results, what the disk
//! holds, and loaded icons.
use vstd::prelude::*;

use crate::app_data::{
    apply_account_updates, icons_view, fungibles_view, non_fungibles_view, AccountsUpdate,
    AppData, AppDataView, AppdataFromDisk,
};
use crate::keyed::KeyedList;
use crate::model::ResourceAddress;

verus! {

pub enum Update {
    Accounts(AccountsUpdate),
    AccountsAndResources(AppdataFromDisk),
    /// Icon image bytes by resource address.
    Icons(KeyedList<ResourceAddress, Vec<u8>>),
}

/// What the caller is left to do after an update.
pub enum UpdateAction {
    Idle,
    /// Download the icons of the update's new resources and send them back with `Icons`;
    /// store the update's accounts, assets and resources on disk.
    DownloadAndSave(AccountsUpdate),
}

impl Update {
    /// Merges a sync's results, replaces the data by what the disk holds, or adds icons.
    pub fn update(self, data: &mut AppData) -> (action: UpdateAction)
        ensures
            match self {
                Update::Accounts(u) => {
                    &&& final(data)@ == (AppDataView {
                        resources: old(data)@.resources.union_prefer_right(u.new_resources@),
                        ..apply_account_updates(old(data)@, u.account_updates@)
                    })
                    &&& action == UpdateAction::DownloadAndSave(u)
                },
                Update::AccountsAndResources(d) => {
                    &&& final(data)@ == (AppDataView {
                        accounts: d.accounts@,
                        resources: d.resources@,
                        fungibles: fungibles_view(d.fungible_assets@),
                        non_fungibles: non_fungibles_view(d.non_fungible_assets@),
                        resource_icons: old(data)@.resource_icons,
                    })
                    &&& action is Idle
                },
                Update::Icons(icons) => {
                    &&& final(data)@ == (AppDataView {
                        resource_icons: old(data)@.resource_icons.union_prefer_right(
                            icons_view(icons@),
                        ),
                        ..old(data)@
                    })
                    &&& action is Idle
                },
            },
    {
        match self {
            Update::Accounts(u) => {
                data.process_updated_accounts_and_resources(&u);
                UpdateAction::DownloadAndSave(u)
            },
            Update::AccountsAndResources(d) => {
                data.place_accounts_and_resources_in_memory(d);
                UpdateAction::Idle
            },
            Update::Icons(icons) => {
                data.store_icons_in_app_data(icons);
                UpdateAction::Idle
            },
        }
    }
}

} // verus!
