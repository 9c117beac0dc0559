//! The transfer form: the sending account, the recipients with their assets, an optional
//! message, and the password that authorizes signing.
use vstd::prelude::*;

use crate::app_data::AppData;
use crate::keyed::KeyedList;
use crate::model::{Account, AccountAddress, AppError, ResourceAddress};
use crate::secret::Password;

use super::add_assets::{self, spec_merge_selection, AddAssets, AddAssetsAction, AddAssetsView, AssetTab};
use super::add_recipient::{
    self, address_set, spec_recipient_input, AddRecipient, AddRecipientAction, AddRecipientView,
};
use super::recipients::{
    clone_selection, remove_asset, remove_recipient, selection_view,
    spec_update_resource_amount, update_resource_amount, AmountInput, Recipient,
};

verus! {

pub const INCOMPLETE_FORM: &'static str =
    "Add a sender, a recipient and at least one valid amount";

pub const UNKNOWN_SENDER: &'static str = "Sending account is not in this wallet";

/// The notice that opens the report of a transaction that was sent, before its intent hash.
pub const TRANSACTION_SUBMITTED: &'static str = "Transaction submitted: ";

pub enum Message {
    OverView,
    SelectAccount(Account),
    RemoveRecipient(usize),
    UpdateResourceAmount(usize, ResourceAddress, AmountInput),
    SelectRecipient(usize),
    AddRecipient,
    ChooseRecipientMessage(add_recipient::Message),
    /// Open the asset screen for the recipient at this index.
    AddAssets(usize),
    AddAssetsMessage(add_assets::Message),
    /// The message editor's new text.
    TextFieldMessage(String),
    RemoveAsset(usize, ResourceAddress),
    ToggleTextField,
    InputPassword(String),
    SubmitTransaction,
}

/// The screens of the form.
pub enum Screen {
    Transaction,
    AddAssets(AddAssets),
    ChooseRecipient(AddRecipient),
}

/// An amount of one token for one recipient.
pub struct FungibleTransfer<D> {
    pub resource: ResourceAddress,
    pub amount: D,
}

/// What one recipient receives.
pub struct RecipientTransfer<D> {
    pub to: AccountAddress,
    pub fungibles: Vec<FungibleTransfer<D>>,
}

/// A transfer from one account to several recipients, as the wallet signs and submits it.
pub struct TransferRequest<D> {
    pub from: AccountAddress,
    pub transfers: Vec<RecipientTransfer<D>>,
}

pub open spec fn fungibles_view<D>(fs: Seq<FungibleTransfer<D>>) -> Seq<(Seq<char>, D)> {
    fs.map_values(|f: FungibleTransfer<D>| (f.resource@, f.amount))
}

pub open spec fn transfers_view<D>(ts: Seq<RecipientTransfer<D>>) -> Seq<
    (Seq<char>, Seq<(Seq<char>, D)>),
> {
    ts.map_values(|t: RecipientTransfer<D>| (t.to@, fungibles_view(t.fungibles@)))
}

pub open spec fn request_view<D>(r: TransferRequest<D>) -> (Seq<char>, Seq<(Seq<char>, Seq<(Seq<char>, D)>)>) {
    (r.from@, transfers_view(r.transfers@))
}

/// The tokens that one recipient receives: the assets with an amount, in order, each with its
/// parsed amount; `None` as soon as a typed amount is not a decimal.
pub open spec fn spec_fungibles<D>(
    assets: Seq<(ResourceAddress, (String, String))>,
    parsed: Seq<Option<D>>,
) -> Option<Seq<(Seq<char>, D)>>
    decreases assets.len(),
{
    if assets.len() == 0 {
        Some(Seq::empty())
    } else {
        match spec_fungibles(assets.drop_last(), parsed) {
            None => None,
            Some(fs) => if assets.last().1.1@.len() == 0 {
                Some(fs)
            } else {
                match parsed[assets.len() - 1] {
                    Some(d) => Some(fs.push((assets.last().0@, d))),
                    None => None,
                }
            },
        }
    }
}

/// What every recipient receives: recipients with nothing to receive are left out; `None`
/// when a recipient has no address or a typed amount is not a decimal.
pub open spec fn spec_transfers<D>(
    recipients: Seq<Recipient>,
    parsed: Seq<Seq<Option<D>>>,
) -> Option<Seq<(Seq<char>, Seq<(Seq<char>, D)>)>>
    decreases recipients.len(),
{
    if recipients.len() == 0 {
        Some(Seq::empty())
    } else {
        match spec_transfers(recipients.drop_last(), parsed) {
            None => None,
            Some(ts) => match recipients.last().address {
                None => None,
                Some(to) => match spec_fungibles(
                    recipients.last().resources.entries(),
                    parsed[recipients.len() - 1],
                ) {
                    None => None,
                    Some(fs) => if fs.len() == 0 {
                        Some(ts)
                    } else {
                        Some(ts.push((to@, fs)))
                    },
                },
            },
        }
    }
}

/// The request that the form describes: there must be a sender, every recipient must have an
/// address, every typed amount must be a decimal, and someone must receive something.
pub open spec fn spec_request<D>(
    from_account: Option<Account>,
    recipients: Seq<Recipient>,
    parsed: Seq<Seq<Option<D>>>,
) -> Option<(Seq<char>, Seq<(Seq<char>, Seq<(Seq<char>, D)>)>)> {
    match from_account {
        None => None,
        Some(a) => match spec_transfers(recipients, parsed) {
            None => None,
            Some(ts) => if ts.len() == 0 {
                None
            } else {
                Some((a.address@, ts))
            },
        },
    }
}

/// The amounts were parsed one for one: a list per recipient, an entry per asset.
pub open spec fn parsed_fits<D>(recipients: Seq<Recipient>, parsed: Seq<Vec<Option<D>>>) -> bool {
    &&& parsed.len() == recipients.len()
    &&& forall|i: int|
        0 <= i < recipients.len() ==> (#[trigger] parsed[i])@.len()
            == recipients[i].resources.entries().len()
}

pub open spec fn parsed_view<D>(parsed: Seq<Vec<Option<D>>>) -> Seq<Seq<Option<D>>> {
    parsed.map_values(|v: Vec<Option<D>>| v@)
}

pub struct CreateTransaction {
    pub from_account: Option<Account>,
    /// The balances of the sending account that were readable as decimals, as their text.
    pub resource_amounts: KeyedList<ResourceAddress, String>,
    pub recipients: Vec<Recipient>,
    pub text_field: Option<String>,
    pub screen: Screen,
    /// The login password, entered to authorize signing; held until the transfer is
    /// submitted.
    pub password: Password,
}

fn recipient_fungibles<D: Copy>(r: &Recipient, parsed: &Vec<Option<D>>) -> (out: Option<Vec<FungibleTransfer<D>>>)
    requires
        parsed@.len() == r.resources.entries().len(),
    ensures
        match spec_fungibles(r.resources.entries(), parsed@) {
            None => out is None,
            Some(fs) => out matches Some(v) && fungibles_view(v@) == fs,
        },
{
    let n = r.resources.len();
    let mut out: Vec<FungibleTransfer<D>> = Vec::new();
    let mut j: usize = 0;
    while j < n
        invariant
            n == r.resources.entries().len(),
            parsed@.len() == n,
            j <= n,
            spec_fungibles(r.resources.entries().take(j as int), parsed@) == Some(
                fungibles_view(out@),
            ),
        decreases n - j,
    {
        let (resource, (_symbol, amount)) = r.resources.entry_at(j);
        proof {
            assert(r.resources.entries().take(j + 1).drop_last() =~= r.resources.entries().take(
                j as int,
            ));
        }
        if !amount.as_str().is_empty() {
            match parsed[j] {
                Some(d) => {
                    out.push(FungibleTransfer { resource: resource.clone(), amount: d });
                    assert(fungibles_view(out@) =~= fungibles_view(out@.drop_last()).push(
                        (resource@, d),
                    ));
                },
                None => {
                    proof {
                        lemma_fungibles_none_stays(r.resources.entries(), parsed@, j + 1);
                    }
                    return None;
                },
            }
        }
        j += 1;
    }
    assert(r.resources.entries().take(n as int) =~= r.resources.entries());
    Some(out)
}

/// Once some prefix of the assets has a malformed amount, so has every longer prefix.
proof fn lemma_fungibles_none_stays<D>(
    assets: Seq<(ResourceAddress, (String, String))>,
    parsed: Seq<Option<D>>,
    k: int,
)
    requires
        0 <= k <= assets.len(),
        spec_fungibles(assets.take(k), parsed) is None,
    ensures
        spec_fungibles(assets, parsed) is None,
    decreases assets.len() - k,
{
    if k < assets.len() {
        assert(assets.take(k + 1).drop_last() =~= assets.take(k));
        lemma_fungibles_none_stays(assets, parsed, k + 1);
    } else {
        assert(assets.take(k) =~= assets);
    }
}

/// Once some prefix of the recipients has a malformed amount, so has every longer prefix.
proof fn lemma_transfers_none_stays<D>(recipients: Seq<Recipient>, parsed: Seq<Seq<Option<D>>>, k: int)
    requires
        0 <= k <= recipients.len(),
        spec_transfers(recipients.take(k), parsed) is None,
    ensures
        spec_transfers(recipients, parsed) is None,
    decreases recipients.len() - k,
{
    if k < recipients.len() {
        assert(recipients.take(k + 1).drop_last() =~= recipients.take(k));
        lemma_transfers_none_stays(recipients, parsed, k + 1);
    } else {
        assert(recipients.take(k) =~= recipients);
    }
}

impl CreateTransaction {
    /// Maps the form to a transfer request, given the typed amounts as parsed to decimals (a
    /// list per recipient with an entry per asset, in the order the assets are listed).
    /// Gives `None` when the form is incomplete: no sender, a recipient without an address, a
    /// typed amount that is not a decimal, or nothing for anyone to receive.
    pub fn build_transfer_request<D: Copy>(&self, parsed: &Vec<Vec<Option<D>>>) -> (r: Option<TransferRequest<D>>)
        requires
            parsed_fits(self.recipients@, parsed@),
        ensures
            match spec_request(self.from_account, self.recipients@, parsed_view(parsed@)) {
                None => r is None,
                Some(v) => r matches Some(q) && request_view(q) == v,
            },
    {
        let from = match &self.from_account {
            Some(account) => account.address.clone(),
            None => return None,
        };
        let ghost pv = parsed_view(parsed@);
        let n = self.recipients.len();
        let mut transfers: Vec<RecipientTransfer<D>> = Vec::new();
        let mut i: usize = 0;
        while i < n
            invariant
                n == self.recipients@.len(),
                parsed_fits(self.recipients@, parsed@),
                pv == parsed_view(parsed@),
                i <= n,
                spec_transfers(self.recipients@.take(i as int), pv) == Some(
                    transfers_view(transfers@),
                ),
            decreases n - i,
        {
            let recipient = &self.recipients[i];
            proof {
                assert(self.recipients@.take(i + 1).drop_last() =~= self.recipients@.take(i as int));
                assert(pv[i as int] == parsed@[i as int]@);
            }
            match &recipient.address {
                None => {
                    proof {
                        lemma_transfers_none_stays(self.recipients@, pv, i + 1);
                    }
                    return None;
                },
                Some(to) => {
                    match recipient_fungibles(recipient, &parsed[i]) {
                        None => {
                            proof {
                                lemma_transfers_none_stays(self.recipients@, pv, i + 1);
                            }
                            return None;
                        },
                        Some(fungibles) => {
                            if fungibles.len() > 0 {
                                let ghost t = (to@, fungibles_view(fungibles@));
                                transfers.push(RecipientTransfer { to: to.clone(), fungibles });
                                assert(transfers_view(transfers@) =~= transfers_view(
                                    transfers@.drop_last(),
                                ).push(t));
                            }
                        },
                    }
                },
            }
            i += 1;
        }
        assert(self.recipients@.take(n as int) =~= self.recipients@);
        if transfers.len() == 0 {
            return None;
        }
        Some(TransferRequest { from, transfers })
    }
}


/// The screens as plain values.
pub enum ScreenView {
    Transaction,
    AddAssets(AddAssetsView),
    ChooseRecipient(AddRecipientView),
}

pub open spec fn screen_view(s: Screen) -> ScreenView {
    match s {
        Screen::Transaction => ScreenView::Transaction,
        Screen::AddAssets(a) => ScreenView::AddAssets(a@),
        Screen::ChooseRecipient(c) => ScreenView::ChooseRecipient(c@),
    }
}

/// What the caller is left to do after a message of the form.
#[derive(PartialEq, Eq, Structural, Clone, Copy, Debug)]
pub enum TransactionAction {
    Idle,
    /// The user asked to send: parse the typed amounts and call `submit_transaction`.
    Submit,
}

/// The outcome of a request to send.
pub enum Submission<D> {
    /// Nothing is sent; the text tells the user why.
    Rejected(&'static str),
    /// Everything that signing and submitting need; the form no longer holds the password.
    /// What they give back goes to `submission_outcome`.
    Ready { request: TransferRequest<D>, account: Account, password: Password },
}

/// The sender, the known balances, the message and the password are as they were.
pub open spec fn keeps_details(before: CreateTransaction, after: CreateTransaction) -> bool {
    &&& after.from_account == before.from_account
    &&& after.resource_amounts == before.resource_amounts
    &&& after.text_field == before.text_field
    &&& after.password@ == before.password@
}

/// Only the screen may have changed.
pub open spec fn keeps_form(before: CreateTransaction, after: CreateTransaction) -> bool {
    &&& keeps_details(before, after)
    &&& after.recipients@ == before.recipients@
}

/// Only the recipients may have changed.
pub open spec fn keeps_all_but_recipients(before: CreateTransaction, after: CreateTransaction) -> bool {
    &&& keeps_details(before, after)
    &&& after.screen == before.screen
}

/// The recipients after one is removed: the only one is kept without its address (and without
/// its assets where `clear_assets` is set); another one leaves the list; an index past the end
/// changes nothing.
pub open spec fn recipient_removed(
    before: Seq<Recipient>,
    after: Seq<Recipient>,
    index: int,
    clear_assets: bool,
) -> bool {
    if before.len() == 1 {
        &&& after.len() == 1
        &&& after[0].address is None
        &&& after[0].resources@ == (if clear_assets {
            Map::empty()
        } else {
            before[0].resources@
        })
    } else if index < before.len() {
        after == before.remove(index)
    } else {
        after == before
    }
}

/// The recipients after one of them changes in its assets only.
pub open spec fn recipient_assets_changed(
    before: Seq<Recipient>,
    after: Seq<Recipient>,
    index: int,
    assets: Map<Seq<char>, (String, String)>,
) -> bool {
    &&& after.len() == before.len()
    &&& forall|i: int| 0 <= i < before.len() && i != index ==> #[trigger] after[i] == before[i]
    &&& after[index].address == before[index].address
    &&& after[index].resources@ == assets
}

/// A recipient without address or assets was added at the end.
pub open spec fn recipient_added(before: Seq<Recipient>, after: Seq<Recipient>) -> bool {
    &&& after.len() == before.len() + 1
    &&& after.take(before.len() as int) == before
    &&& after.last().address is None
    &&& after.last().resources@ == Map::<Seq<char>, (String, String)>::empty()
}

/// The asset screen for a recipient, as it opens: the recipient's assets are chosen.
pub open spec fn opened_add_assets(from: Seq<char>, index: usize, recipient: Recipient) -> ScreenView {
    ScreenView::AddAssets(
        AddAssetsView {
            tab: AssetTab::Tokens,
            from_account: from,
            recipient_index: index,
            filter: Seq::empty(),
            selected: selection_view(recipient.resources@),
            select_all: false,
        },
    )
}

/// The recipient screen, as it opens.
pub open spec fn opened_choose_recipient(from: Option<Account>, index: usize) -> ScreenView {
    ScreenView::ChooseRecipient(
        AddRecipientView {
            from_account: match from {
                Some(a) => Some(a.address@),
                None => None,
            },
            recipient_index: index,
            recipient_input: Seq::empty(),
            selected_radio: None,
            chosen_account: None,
        },
    )
}

/// A message of the asset screen, passed on when that screen is open; submitting the choice
/// hands it to the recipient and shows the form again. Another screen ignores the message.
pub open spec fn assets_screen_stepped(
    bs: Screen,
    br: Seq<Recipient>,
    as_: Screen,
    ar: Seq<Recipient>,
    m: add_assets::Message,
    data: AppData,
) -> bool {
    match bs {
        Screen::AddAssets(s) => if m is SubmitAssets {
            &&& as_ is Transaction
            &&& recipient_assets_changed(
                br,
                ar,
                s.recipient_index as int,
                ar[s.recipient_index as int].resources@,
            )
            &&& selection_view(ar[s.recipient_index as int].resources@) == spec_merge_selection(
                selection_view(br[s.recipient_index as int].resources@),
                s.selected.entries(),
            )
        } else {
            &&& ar == br
            &&& screen_view(as_) == ScreenView::AddAssets(add_assets::spec_update(s@, m, data))
        },
        _ => as_ == bs && ar == br,
    }
}

/// A message of the recipient screen, passed on when that screen is open; submitting the
/// choice sets the recipient's address and shows the form again. Another screen ignores the
/// message.
pub open spec fn recipient_screen_stepped(
    bs: Screen,
    br: Seq<Recipient>,
    as_: Screen,
    ar: Seq<Recipient>,
    m: add_recipient::Message,
) -> bool {
    match bs {
        Screen::ChooseRecipient(s) => match m {
            add_recipient::Message::RecipientInput(input) => {
                &&& ar == br
                &&& screen_view(as_) == ScreenView::ChooseRecipient(
                    spec_recipient_input(s@, input),
                )
            },
            add_recipient::Message::SelectRadioButton(address) => {
                &&& ar == br
                &&& screen_view(as_) == ScreenView::ChooseRecipient(
                    AddRecipientView { chosen_account: Some(address@), ..s@ },
                )
            },
            add_recipient::Message::Submit => {
                &&& as_ is Transaction
                &&& address_set(br, ar, s.recipient_index as int, s.chosen_account)
            },
        },
        _ => as_ == bs && ar == br,
    }
}

/// The messages of the sub-screens that index a recipient, with the index they use.
pub open spec fn screen_index_allowed(
    screen: Screen,
    recipients: Seq<Recipient>,
    assets: Option<add_assets::Message>,
    choose: Option<add_recipient::Message>,
) -> bool {
    &&& (screen matches Screen::AddAssets(s) && assets matches Some(m) && m is SubmitAssets)
        ==> screen->AddAssets_0.recipient_index < recipients.len()
    &&& (screen matches Screen::ChooseRecipient(s) && choose matches Some(m) && m is Submit)
        ==> screen->ChooseRecipient_0.recipient_index < recipients.len()
}

/// The sub-screen step, with the sender, balances, message and password kept.
pub open spec fn add_assets_stepped(
    before: CreateTransaction,
    after: CreateTransaction,
    m: add_assets::Message,
    data: AppData,
) -> bool {
    &&& keeps_details(before, after)
    &&& assets_screen_stepped(
        before.screen,
        before.recipients@,
        after.screen,
        after.recipients@,
        m,
        data,
    )
}

pub open spec fn choose_recipient_stepped(
    before: CreateTransaction,
    after: CreateTransaction,
    m: add_recipient::Message,
) -> bool {
    &&& keeps_details(before, after)
    &&& recipient_screen_stepped(
        before.screen,
        before.recipients@,
        after.screen,
        after.recipients@,
        m,
    )
}

/// The form after a message.
pub open spec fn form_updated(
    before: CreateTransaction,
    after: CreateTransaction,
    message: Message,
    data: AppData,
) -> bool {
    match message {
        Message::OverView => keeps_form(before, after) && after.screen is Transaction,
        Message::SelectAccount(account) => {
            &&& after.from_account == Some(account)
            &&& after.resource_amounts == before.resource_amounts
            &&& after.text_field == before.text_field
            &&& after.password@ == before.password@
            &&& after.recipients@ == before.recipients@
            &&& after.screen == before.screen
        },
        Message::RemoveRecipient(i) => keeps_all_but_recipients(before, after) && recipient_removed(
            before.recipients@,
            after.recipients@,
            i as int,
            false,
        ),
        Message::UpdateResourceAmount(i, resource, input) => keeps_all_but_recipients(
            before,
            after,
        ) && recipient_assets_changed(
            before.recipients@,
            after.recipients@,
            i as int,
            spec_update_resource_amount(before.recipients@[i as int].resources@, resource@, input),
        ),
        Message::SelectRecipient(i) => keeps_form(before, after) && screen_view(after.screen)
            == opened_choose_recipient(before.from_account, i),
        Message::AddRecipient => keeps_all_but_recipients(before, after) && recipient_added(
            before.recipients@,
            after.recipients@,
        ),
        Message::AddAssets(i) => match before.from_account {
            Some(account) => keeps_form(before, after) && screen_view(after.screen)
                == opened_add_assets(account.address@, i, before.recipients@[i as int]),
            None => after == before,
        },
        Message::AddAssetsMessage(m) => add_assets_stepped(before, after, m, data),
        Message::ChooseRecipientMessage(m) => choose_recipient_stepped(before, after, m),
        Message::TextFieldMessage(text) => {
            &&& after.from_account == before.from_account
            &&& after.resource_amounts == before.resource_amounts
            &&& after.password@ == before.password@
            &&& after.recipients@ == before.recipients@
            &&& after.screen == before.screen
            &&& after.text_field == (if before.text_field is Some {
                Some(text)
            } else {
                None
            })
        },
        Message::RemoveAsset(i, resource) => keeps_all_but_recipients(before, after)
            && recipient_assets_changed(
            before.recipients@,
            after.recipients@,
            i as int,
            before.recipients@[i as int].resources@.remove(resource@),
        ),
        Message::ToggleTextField => {
            &&& after.from_account == before.from_account
            &&& after.resource_amounts == before.resource_amounts
            &&& after.password@ == before.password@
            &&& after.recipients@ == before.recipients@
            &&& after.screen == before.screen
            &&& before.text_field is Some ==> after.text_field is None
            &&& before.text_field is None ==> (after.text_field matches Some(t) && t@.len() == 0)
        },
        Message::InputPassword(input) => {
            &&& after.from_account == before.from_account
            &&& after.resource_amounts == before.resource_amounts
            &&& after.text_field == before.text_field
            &&& after.recipients@ == before.recipients@
            &&& after.screen == before.screen
            &&& after.password@ == input@
        },
        Message::SubmitTransaction => keeps_form(before, after) && after.screen == before.screen,
    }
}

/// A form as it opens: one recipient with neither address nor assets, no message, no
/// password, the form's own screen.
pub open spec fn fresh_form(
    r: CreateTransaction,
    from_account: Option<Account>,
    amounts: Map<Seq<char>, String>,
) -> bool {
    &&& r.from_account == from_account
    &&& r.resource_amounts@ == amounts
    &&& r.recipients@.len() == 1
    &&& r.recipients@[0].address is None
    &&& r.recipients@[0].resources@ == Map::<Seq<char>, (String, String)>::empty()
    &&& r.text_field is None
    &&& r.screen is Transaction
    &&& r.password@ == Seq::<char>::empty()
}

/// The messages on which the form indexes a recipient that must be there.
pub open spec fn update_allowed(form: CreateTransaction, message: Message) -> bool {
    match message {
        Message::RemoveRecipient(i) => form.recipients@.len() == 1 ==> i == 0,
        Message::UpdateResourceAmount(i, _, _) => i < form.recipients@.len(),
        Message::RemoveAsset(i, _) => i < form.recipients@.len(),
        Message::AddAssets(i) => form.from_account is Some ==> i < form.recipients@.len(),
        Message::AddAssetsMessage(m) => screen_index_allowed(
            form.screen,
            form.recipients@,
            Some(m),
            None,
        ),
        Message::ChooseRecipientMessage(m) => screen_index_allowed(
            form.screen,
            form.recipients@,
            None,
            Some(m),
        ),
        _ => true,
    }
}

/// Passes a message to the asset screen when it is open.
pub fn step_assets_screen(
    screen: &mut Screen,
    recipients: &mut Vec<Recipient>,
    m: add_assets::Message,
    data: &AppData,
)
    requires
        screen_index_allowed(*old(screen), old(recipients)@, Some(m), None),
    ensures
        assets_screen_stepped(*old(screen), old(recipients)@, *final(screen), final(recipients)@, m, *data),
{
    let mut taken = Screen::Transaction;
    std::mem::swap(&mut taken, screen);
    match taken {
        Screen::AddAssets(mut s) => {
            let action = s.update(m, recipients, data);
            if action == AddAssetsAction::Idle {
                *screen = Screen::AddAssets(s);
            }
        },
        other => {
            *screen = other;
        },
    }
}

/// Passes a message to the recipient screen when it is open.
pub fn step_recipient_screen(
    screen: &mut Screen,
    recipients: &mut Vec<Recipient>,
    m: add_recipient::Message,
)
    requires
        screen_index_allowed(*old(screen), old(recipients)@, None, Some(m)),
    ensures
        recipient_screen_stepped(*old(screen), old(recipients)@, *final(screen), final(recipients)@, m),
{
    let mut taken = Screen::Transaction;
    std::mem::swap(&mut taken, screen);
    match taken {
        Screen::ChooseRecipient(mut s) => {
            let action = s.update(m, recipients);
            if action == AddRecipientAction::Idle {
                *screen = Screen::ChooseRecipient(s);
            }
        },
        other => {
            *screen = other;
        },
    }
}

impl CreateTransaction {
    /// A form with one empty recipient, from the given account with its known balances.
    pub fn new(
        from_account: Option<Account>,
        account_resources: Option<KeyedList<ResourceAddress, String>>,
    ) -> (r: Self)
        ensures
            r.from_account == from_account,
            account_resources matches Some(m) ==> r.resource_amounts == m,
            account_resources is None ==> r.resource_amounts@ == Map::<Seq<char>, String>::empty(),
            r.recipients@.len() == 1,
            r.recipients@[0].address is None,
            r.recipients@[0].resources@ == Map::<Seq<char>, (String, String)>::empty(),
            r.text_field is None,
            r.screen is Transaction,
            r.password@ == Seq::<char>::empty(),
            fresh_form(
                r,
                from_account,
                match account_resources {
                    Some(m) => m@,
                    None => Map::empty(),
                },
            ),
    {
        let resource_amounts = match account_resources {
            Some(m) => m,
            None => KeyedList::new(),
        };
        let mut recipients: Vec<Recipient> = Vec::new();
        recipients.push(Recipient::new(None));
        CreateTransaction {
            from_account,
            resource_amounts,
            recipients,
            text_field: None,
            screen: Screen::Transaction,
            password: Password::new(),
        }
    }

    /// A form that sends to the given address, with no sender chosen yet.
    pub fn from_recipient(address: AccountAddress) -> (r: Self)
        ensures
            r.from_account is None,
            r.resource_amounts@ == Map::<Seq<char>, String>::empty(),
            r.recipients@.len() == 1,
            r.recipients@[0].address == Some(address),
            r.recipients@[0].resources@ == Map::<Seq<char>, (String, String)>::empty(),
            r.text_field is None,
            r.screen is Transaction,
            r.password@ == Seq::<char>::empty(),
    {
        let mut recipients: Vec<Recipient> = Vec::new();
        recipients.push(Recipient::new(Some(address)));
        CreateTransaction {
            from_account: None,
            resource_amounts: KeyedList::new(),
            recipients,
            text_field: None,
            screen: Screen::Transaction,
            password: Password::new(),
        }
    }

    /// Opens the asset screen for a recipient, with the recipient's assets chosen.
    pub fn create_new_add_assets_view(&mut self, recipient_index: usize, from_account: AccountAddress)
        requires
            recipient_index < old(self).recipients@.len(),
        ensures
            keeps_form(*old(self), *final(self)),
            screen_view(final(self).screen) == opened_add_assets(
                from_account@,
                recipient_index,
                old(self).recipients@[recipient_index as int],
            ),
    {
        let selected = clone_selection(&self.recipients[recipient_index].resources);
        self.screen = Screen::AddAssets(AddAssets::new(from_account, recipient_index, selected));
    }

    /// Handles a message of the form. The indexes that the messages carry must name a
    /// recipient where the form uses them (`update_allowed`).
    pub fn update(&mut self, message: Message, data: &AppData) -> (action: TransactionAction)
        requires
            update_allowed(*old(self), message),
        ensures
            form_updated(*old(self), *final(self), message, *data),
            action == (if message is SubmitTransaction {
                TransactionAction::Submit
            } else {
                TransactionAction::Idle
            }),
            old(self).recipients@.len() > 0 ==> final(self).recipients@.len() > 0,
    {
        match message {
            Message::OverView => {
                self.screen = Screen::Transaction;
            },
            Message::SelectAccount(account) => {
                self.from_account = Some(account);
            },
            Message::RemoveRecipient(i) => {
                remove_recipient(&mut self.recipients, i, false);
            },
            Message::UpdateResourceAmount(i, resource, input) => {
                update_resource_amount(&mut self.recipients, i, &resource, input);
            },
            Message::SelectRecipient(i) => {
                let from_address = match &self.from_account {
                    Some(account) => Some(account.address.clone()),
                    None => None,
                };
                self.screen = Screen::ChooseRecipient(AddRecipient::new(i, from_address));
            },
            Message::AddRecipient => {
                let ghost before = self.recipients@;
                self.recipients.push(Recipient::new(None));
                assert(self.recipients@.take(before.len() as int) =~= before);
            },
            Message::AddAssets(i) => {
                match &self.from_account {
                    Some(account) => {
                        let from = account.address.clone();
                        self.create_new_add_assets_view(i, from);
                    },
                    None => {},
                }
            },
            Message::AddAssetsMessage(m) => {
                step_assets_screen(&mut self.screen, &mut self.recipients, m, data);
            },
            Message::ChooseRecipientMessage(m) => {
                step_recipient_screen(&mut self.screen, &mut self.recipients, m);
            },
            Message::RemoveAsset(i, resource) => {
                remove_asset(&mut self.recipients, i, &resource);
            },
            Message::TextFieldMessage(text) => {
                if self.text_field.is_some() {
                    self.text_field = Some(text);
                }
            },
            Message::ToggleTextField => {
                self.text_field = match self.text_field {
                    Some(_) => None,
                    None => Some(String::new()),
                };
            },
            Message::InputPassword(input) => {
                self.password.clear();
                self.password.push_str(input.as_str());
                assert(self.password@ =~= input@);
            },
            Message::SubmitTransaction => {
                return TransactionAction::Submit;
            },
        }
        TransactionAction::Idle
    }

    /// Turns the form into what signing and submitting need, given the typed amounts as parsed
    /// to decimals (as for `build_transfer_request`). The form is refused when it is incomplete
    /// or when its sender is not an account of the wallet; otherwise the password leaves the
    /// form with the request.
    pub fn submit_transaction<D: Copy>(&mut self, data: &AppData, parsed: &Vec<Vec<Option<D>>>) -> (r: Submission<D>)
        requires
            parsed_fits(old(self).recipients@, parsed@),
        ensures
            final(self).from_account == old(self).from_account,
            final(self).resource_amounts == old(self).resource_amounts,
            final(self).text_field == old(self).text_field,
            final(self).recipients@ == old(self).recipients@,
            final(self).screen == old(self).screen,
            match spec_request(old(self).from_account, old(self).recipients@, parsed_view(parsed@)) {
                None => r == Submission::<D>::Rejected(INCOMPLETE_FORM) && final(self).password@
                    == old(self).password@,
                Some(v) => if data.accounts@.contains_key(v.0) {
                    &&& r matches Submission::Ready { request, account, password }
                    &&& request_view(request) == v
                    &&& account == data.accounts@[v.0]
                    &&& password@ == old(self).password@
                    &&& final(self).password@ == Seq::<char>::empty()
                } else {
                    r == Submission::<D>::Rejected(UNKNOWN_SENDER) && final(self).password@
                        == old(self).password@
                },
            },
    {
        let request = match self.build_transfer_request(parsed) {
            Some(q) => q,
            None => return Submission::Rejected(INCOMPLETE_FORM),
        };
        let account = match data.accounts.get(&request.from) {
            Some(a) => a.clone(),
            None => return Submission::Rejected(UNKNOWN_SENDER),
        };
        let mut password = Password::new();
        std::mem::swap(&mut password, &mut self.password);
        Submission::Ready { request, account, password }
    }
}

/// What the user is told once signing and submitting finished, given the intent hash of the
/// transaction that was sent or the error: the notice with the hash, or the error passed on.
pub fn submission_outcome(result: Result<String, AppError>) -> (r: AppError)
    ensures
        match result {
            Ok(intent_hash) => r matches AppError::NonFatal(text) && text@ == TRANSACTION_SUBMITTED@
                + intent_hash@,
            Err(e) => r == e,
        },
{
    match result {
        Ok(intent_hash) => {
            let mut text = String::from_str(TRANSACTION_SUBMITTED);
            text.append(intent_hash.as_str());
            AppError::NonFatal(text)
        },
        Err(e) => e,
    }
}

/// A line of the review that the form shows before sending.
pub enum ReviewLine {
    From(Account),
    To(AccountAddress),
    Asset { amount: String, symbol: String },
}

/// The assets with an amount, each as amount and symbol, in order.
pub open spec fn asset_lines(assets: Seq<(ResourceAddress, (String, String))>) -> Seq<ReviewLine>
    decreases assets.len(),
{
    if assets.len() == 0 {
        Seq::empty()
    } else {
        let rest = asset_lines(assets.drop_last());
        if assets.last().1.1@.len() == 0 {
            rest
        } else {
            rest.push(ReviewLine::Asset { amount: assets.last().1.1, symbol: assets.last().1.0 })
        }
    }
}

/// Each recipient with an address and something to receive: its address, then its assets.
pub open spec fn recipient_lines(recipients: Seq<Recipient>) -> Seq<ReviewLine>
    decreases recipients.len(),
{
    if recipients.len() == 0 {
        Seq::empty()
    } else {
        let rest = recipient_lines(recipients.drop_last());
        match recipients.last().address {
            None => rest,
            Some(to) => {
                let assets = asset_lines(recipients.last().resources.entries());
                if assets.len() == 0 {
                    rest
                } else {
                    rest.push(ReviewLine::To(to)) + assets
                }
            },
        }
    }
}

/// The review: the sender, if there is one, then the recipients' lines.
pub open spec fn review_lines(from_account: Option<Account>, recipients: Seq<Recipient>) -> Seq<ReviewLine> {
    match from_account {
        Some(a) => seq![ReviewLine::From(a)] + recipient_lines(recipients),
        None => recipient_lines(recipients),
    }
}

fn asset_lines_of(r: &Recipient) -> (out: Vec<ReviewLine>)
    ensures
        out@ == asset_lines(r.resources.entries()),
{
    let n = r.resources.len();
    let mut out: Vec<ReviewLine> = Vec::new();
    let mut j: usize = 0;
    while j < n
        invariant
            n == r.resources.entries().len(),
            j <= n,
            out@ == asset_lines(r.resources.entries().take(j as int)),
        decreases n - j,
    {
        let (_resource, (symbol, amount)) = r.resources.entry_at(j);
        proof {
            assert(r.resources.entries().take(j + 1).drop_last() =~= r.resources.entries().take(
                j as int,
            ));
        }
        if !amount.as_str().is_empty() {
            out.push(ReviewLine::Asset { amount: amount.clone(), symbol: symbol.clone() });
        }
        j += 1;
    }
    assert(r.resources.entries().take(n as int) =~= r.resources.entries());
    out
}

impl CreateTransaction {
    /// The review shown above the password field; nothing while it would hold one line or
    /// none.
    pub fn review_summary(&self) -> (r: Option<Vec<ReviewLine>>)
        ensures
            match r {
                Some(lines) => lines@ == review_lines(self.from_account, self.recipients@)
                    && lines@.len() > 1,
                None => review_lines(self.from_account, self.recipients@).len() <= 1,
            },
            r is Some == has_complete_recipient(self.recipients@),
    {
        let mut lines: Vec<ReviewLine> = Vec::new();
        match &self.from_account {
            Some(a) => lines.push(ReviewLine::From(a.clone())),
            None => {},
        }
        let ghost head = lines@;
        let n = self.recipients.len();
        let mut i: usize = 0;
        while i < n
            invariant
                n == self.recipients@.len(),
                i <= n,
                head == match self.from_account {
                    Some(a) => seq![ReviewLine::From(a)],
                    None => Seq::<ReviewLine>::empty(),
                },
                lines@ == head + recipient_lines(self.recipients@.take(i as int)),
            decreases n - i,
        {
            let recipient = &self.recipients[i];
            proof {
                assert(self.recipients@.take(i + 1).drop_last() =~= self.recipients@.take(i as int));
            }
            match &recipient.address {
                None => {},
                Some(to) => {
                    let mut assets = asset_lines_of(recipient);
                    if assets.len() > 0 {
                        let ghost before = lines@;
                        let ghost al = assets@;
                        lines.push(ReviewLine::To(to.clone()));
                        lines.append(&mut assets);
                        assert(lines@ =~= before.push(ReviewLine::To(*to)) + al);
                        assert(head + recipient_lines(self.recipients@.take(i + 1)) =~= before.push(
                            ReviewLine::To(*to),
                        ) + al);
                    }
                },
            }
            i += 1;
        }
        assert(self.recipients@.take(n as int) =~= self.recipients@);
        assert(lines@ =~= review_lines(self.from_account, self.recipients@));
        proof {
            law_review_shows_complete_recipients(self.from_account, self.recipients@);
        }
        if lines.len() <= 1 {
            None
        } else {
            Some(lines)
        }
    }
}

/// Every recipient that the transfers name receives at least one token.
pub proof fn lemma_transfers_nonempty<D>(recipients: Seq<Recipient>, parsed: Seq<Seq<Option<D>>>)
    ensures
        spec_transfers(recipients, parsed) matches Some(ts) ==> forall|j: int|
            0 <= j < ts.len() ==> (#[trigger] ts[j]).1.len() > 0,
    decreases recipients.len(),
{
    if recipients.len() > 0 {
        lemma_transfers_nonempty(recipients.drop_last(), parsed);
    }
}

/// A request that the form gives comes from its sender, names at least one recipient, and
/// sends each recipient it names at least one token.
pub proof fn law_request_sends_something<D>(
    from_account: Option<Account>,
    recipients: Seq<Recipient>,
    parsed: Seq<Seq<Option<D>>>,
)
    ensures
        spec_request(from_account, recipients, parsed) matches Some(v) ==> {
            &&& from_account matches Some(a) && v.0 == a.address@
            &&& v.1.len() > 0
            &&& forall|j: int| 0 <= j < v.1.len() ==> (#[trigger] v.1[j]).1.len() > 0
        },
{
    lemma_transfers_nonempty(recipients, parsed);
}

/// A typed amount that is not a decimal spoils the assets it stands among.
pub proof fn lemma_fungibles_malformed<D>(
    assets: Seq<(ResourceAddress, (String, String))>,
    parsed: Seq<Option<D>>,
    j: int,
)
    requires
        0 <= j < assets.len(),
        assets[j].1.1@.len() > 0,
        parsed[j] is None,
    ensures
        spec_fungibles(assets, parsed) is None,
    decreases assets.len(),
{
    if j < assets.len() - 1 {
        assert(assets.drop_last()[j] == assets[j]);
        lemma_fungibles_malformed(assets.drop_last(), parsed, j);
    }
}

/// A recipient with an address and a typed amount that is not a decimal spoils the
/// transfers.
pub proof fn lemma_transfers_malformed<D>(
    recipients: Seq<Recipient>,
    parsed: Seq<Seq<Option<D>>>,
    i: int,
    j: int,
)
    requires
        0 <= i < recipients.len(),
        recipients[i].address is Some,
        0 <= j < recipients[i].resources.entries().len(),
        recipients[i].resources.entries()[j].1.1@.len() > 0,
        parsed[i][j] is None,
    ensures
        spec_transfers(recipients, parsed) is None,
    decreases recipients.len(),
{
    if i < recipients.len() - 1 {
        assert(recipients.drop_last()[i] == recipients[i]);
        lemma_transfers_malformed(recipients.drop_last(), parsed, i, j);
    } else {
        lemma_fungibles_malformed(recipients[i].resources.entries(), parsed[i], j);
    }
}

/// A form is refused as a whole when an amount typed for a recipient with an address is not
/// a decimal: the amount is not dropped while the rest is sent.
pub proof fn law_malformed_amount_refuses<D>(
    from_account: Option<Account>,
    recipients: Seq<Recipient>,
    parsed: Seq<Seq<Option<D>>>,
    i: int,
    j: int,
)
    requires
        0 <= i < recipients.len(),
        recipients[i].address is Some,
        0 <= j < recipients[i].resources.entries().len(),
        recipients[i].resources.entries()[j].1.1@.len() > 0,
        parsed[i][j] is None,
    ensures
        spec_request(from_account, recipients, parsed) is None,
{
    lemma_transfers_malformed(recipients, parsed, i, j);
}

/// A recipient without an address spoils the transfers.
pub proof fn lemma_transfers_missing_address<D>(
    recipients: Seq<Recipient>,
    parsed: Seq<Seq<Option<D>>>,
    i: int,
)
    requires
        0 <= i < recipients.len(),
        recipients[i].address is None,
    ensures
        spec_transfers(recipients, parsed) is None,
    decreases recipients.len(),
{
    if i < recipients.len() - 1 {
        assert(recipients.drop_last()[i] == recipients[i]);
        lemma_transfers_missing_address(recipients.drop_last(), parsed, i);
    }
}

/// A recipient without an address refuses the request as a whole: its assets are not
/// dropped while the rest is sent.
pub proof fn law_missing_address_refuses<D>(
    from_account: Option<Account>,
    recipients: Seq<Recipient>,
    parsed: Seq<Seq<Option<D>>>,
    i: int,
)
    requires
        0 <= i < recipients.len(),
        recipients[i].address is None,
    ensures
        spec_request(from_account, recipients, parsed) is None,
{
    lemma_transfers_missing_address(recipients, parsed, i);
}

/// Some recipient has an address and an amount typed for one of its assets.
pub open spec fn has_complete_recipient(recipients: Seq<Recipient>) -> bool {
    exists|i: int, j: int|
        #![trigger recipients[i].resources.entries()[j]]
        0 <= i < recipients.len() && recipients[i].address is Some && 0 <= j
            < recipients[i].resources.entries().len() && recipients[i].resources.entries()[j].1.1@.len()
            > 0
}

/// The asset lines are empty exactly when no asset has an amount.
pub proof fn lemma_asset_lines_empty(assets: Seq<(ResourceAddress, (String, String))>)
    ensures
        (asset_lines(assets).len() == 0) == (forall|j: int|
            0 <= j < assets.len() ==> (#[trigger] assets[j]).1.1@.len() == 0),
    decreases assets.len(),
{
    if assets.len() > 0 {
        lemma_asset_lines_empty(assets.drop_last());
        if asset_lines(assets).len() == 0 {
            assert forall|j: int| 0 <= j < assets.len() implies (#[trigger] assets[j]).1.1@.len()
                == 0 by {
                if j < assets.len() - 1 {
                    assert(assets.drop_last()[j] == assets[j]);
                }
            }
        } else {
            if forall|j: int| 0 <= j < assets.len() ==> (#[trigger] assets[j]).1.1@.len() == 0 {
                assert forall|j: int| 0 <= j < assets.drop_last().len() implies (
                #[trigger] assets.drop_last()[j]).1.1@.len() == 0 by {
                    assert(assets.drop_last()[j] == assets[j]);
                }
                assert(assets[assets.len() - 1].1.1@.len() == 0);
            }
        }
    }
}

/// The recipients' lines are empty exactly when no recipient is complete, and otherwise hold
/// an address line and an amount line at least.
pub proof fn lemma_recipient_lines(recipients: Seq<Recipient>)
    ensures
        (recipient_lines(recipients).len() == 0) == !has_complete_recipient(recipients),
        recipient_lines(recipients).len() != 1,
    decreases recipients.len(),
{
    if recipients.len() > 0 {
        let init = recipients.drop_last();
        let last = recipients.last();
        lemma_recipient_lines(init);
        lemma_asset_lines_empty(last.resources.entries());
        if has_complete_recipient(init) {
            let (i, j) = choose|i: int, j: int|
                #![trigger init[i].resources.entries()[j]]
                0 <= i < init.len() && init[i].address is Some && 0 <= j
                    < init[i].resources.entries().len() && init[i].resources.entries()[j].1.1@.len()
                    > 0;
            assert(recipients[i] == init[i]);
            assert(recipients[i].resources.entries()[j] == init[i].resources.entries()[j]);
        }
        if has_complete_recipient(recipients) {
            let (i, j) = choose|i: int, j: int|
                #![trigger recipients[i].resources.entries()[j]]
                0 <= i < recipients.len() && recipients[i].address is Some && 0 <= j
                    < recipients[i].resources.entries().len()
                    && recipients[i].resources.entries()[j].1.1@.len() > 0;
            if i < recipients.len() - 1 {
                assert(init[i] == recipients[i]);
                assert(init[i].resources.entries()[j] == recipients[i].resources.entries()[j]);
            } else {
                assert(last.resources.entries()[j].1.1@.len() > 0);
            }
        }
    }
}

/// The review shows exactly when some recipient has an address and an amount, as a request
/// needs too.
pub proof fn law_review_shows_complete_recipients(from_account: Option<Account>, recipients: Seq<Recipient>)
    ensures
        (review_lines(from_account, recipients).len() > 1) == has_complete_recipient(recipients),
{
    lemma_recipient_lines(recipients);
}

/// The tokens of a recipient read only the parsed amounts that stand beside its assets.
pub proof fn lemma_fungibles_same_parsed<D>(
    assets: Seq<(ResourceAddress, (String, String))>,
    p1: Seq<Option<D>>,
    p2: Seq<Option<D>>,
)
    requires
        forall|j: int| 0 <= j < assets.len() ==> p1[j] == p2[j],
    ensures
        spec_fungibles(assets, p1) == spec_fungibles(assets, p2),
    decreases assets.len(),
{
    if assets.len() > 0 {
        lemma_fungibles_same_parsed(assets.drop_last(), p1, p2);
    }
}

/// Two forms whose recipients have the same addresses and the same tokens give the same
/// transfers.
pub proof fn lemma_transfers_same<D>(
    rs1: Seq<Recipient>,
    ps1: Seq<Seq<Option<D>>>,
    rs2: Seq<Recipient>,
    ps2: Seq<Seq<Option<D>>>,
)
    requires
        rs1.len() == rs2.len(),
        forall|k: int|
            0 <= k < rs1.len() ==> (#[trigger] rs1[k]).address == rs2[k].address && spec_fungibles(
                rs1[k].resources.entries(),
                ps1[k],
            ) == spec_fungibles(rs2[k].resources.entries(), ps2[k]),
    ensures
        spec_transfers(rs1, ps1) == spec_transfers(rs2, ps2),
    decreases rs1.len(),
{
    if rs1.len() > 0 {
        let n = rs1.len() - 1;
        assert forall|k: int| 0 <= k < rs1.drop_last().len() implies (
        #[trigger] rs1.drop_last()[k]).address == rs2.drop_last()[k].address && spec_fungibles(
            rs1.drop_last()[k].resources.entries(),
            ps1[k],
        ) == spec_fungibles(rs2.drop_last()[k].resources.entries(), ps2[k]) by {
            assert(rs1.drop_last()[k] == rs1[k]);
            assert(rs2.drop_last()[k] == rs2[k]);
        }
        lemma_transfers_same(rs1.drop_last(), ps1, rs2.drop_last(), ps2);
        assert(rs1[n] == rs1.last());
    }
}

/// An asset added to a recipient with an empty amount changes nothing of the request: assets
/// without an amount are not sent, whatever their parsed entry holds.
pub proof fn law_empty_amount_is_ignored<D>(
    from_account: Option<Account>,
    recipients: Seq<Recipient>,
    parsed: Seq<Seq<Option<D>>>,
    i: int,
    extended: Recipient,
    asset: (ResourceAddress, (String, String)),
    parsed_entry: Option<D>,
)
    requires
        0 <= i < recipients.len(),
        parsed.len() == recipients.len(),
        parsed[i].len() == recipients[i].resources.entries().len(),
        extended.address == recipients[i].address,
        extended.resources.entries() == recipients[i].resources.entries().push(asset),
        asset.1.1@.len() == 0,
    ensures
        spec_request(
            from_account,
            recipients.update(i, extended),
            parsed.update(i, parsed[i].push(parsed_entry)),
        ) == spec_request(from_account, recipients, parsed),
{
    let rs2 = recipients.update(i, extended);
    let ps2 = parsed.update(i, parsed[i].push(parsed_entry));
    let a = recipients[i].resources.entries();
    lemma_fungibles_same_parsed(a, parsed[i].push(parsed_entry), parsed[i]);
    assert(extended.resources.entries().drop_last() =~= a);
    assert forall|k: int| 0 <= k < recipients.len() implies (#[trigger] recipients[k]).address
        == rs2[k].address && spec_fungibles(recipients[k].resources.entries(), parsed[k])
        == spec_fungibles(rs2[k].resources.entries(), ps2[k]) by {
        if k == i {
            assert(ps2[k] == parsed[i].push(parsed_entry));
        }
    }
    lemma_transfers_same(recipients, parsed, rs2, ps2);
}

impl CreateTransaction {
    /// Whether the button that creates the transaction is enabled: a sender is chosen and a
    /// password was entered.
    pub fn can_submit(&self) -> (r: bool)
        ensures
            r == (self.from_account is Some && self.password@.len() > 0),
    {
        self.from_account.is_some() && !self.password.is_empty()
    }
}

/// Whether an asset of a recipient has a typed amount.
pub open spec fn has_amount(a: (ResourceAddress, (String, String))) -> bool {
    a.1.1@.len() > 0
}

/// How many of the first `j` assets have a typed amount.
pub open spec fn amounts_before(assets: Seq<(ResourceAddress, (String, String))>, j: int) -> nat
    decreases j,
{
    if j <= 0 {
        0
    } else {
        amounts_before(assets, j - 1) + if has_amount(assets[j - 1]) {
            1nat
        } else {
            0nat
        }
    }
}

/// The count of assets with an amount among the first `j` reads only those assets.
pub proof fn lemma_amounts_before_prefix(
    s: Seq<(ResourceAddress, (String, String))>,
    t: Seq<(ResourceAddress, (String, String))>,
    j: int,
)
    requires
        0 <= j <= s.len(),
        j <= t.len(),
        forall|i: int| 0 <= i < j ==> s[i] == t[i],
    ensures
        amounts_before(s, j) == amounts_before(t, j),
    decreases j,
{
    if j > 0 {
        lemma_amounts_before_prefix(s, t, j - 1);
    }
}

/// An asset with an amount comes before every later one in the count.
pub proof fn lemma_amounts_before_grows(assets: Seq<(ResourceAddress, (String, String))>, j: int, k: int)
    requires
        0 <= j < k,
        has_amount(assets[j]),
    ensures
        amounts_before(assets, j) < amounts_before(assets, k),
    decreases k,
{
    if k > j + 1 {
        lemma_amounts_before_grows(assets, j, k - 1);
    }
}

/// What a recipient receives in the request: when every asset with a typed amount has a
/// parsed amount, exactly those assets, in their order, each with its parsed amount (the
/// `r`-th asset with an amount is the `r`-th token); when one of them has none, nothing can
/// be sent.
pub proof fn law_recipient_receives_every_amount<D>(
    assets: Seq<(ResourceAddress, (String, String))>,
    parsed: Seq<Option<D>>,
)
    requires
        assets.len() <= parsed.len(),
    ensures
        (forall|j: int| 0 <= j < assets.len() && has_amount(assets[j]) ==> (#[trigger] parsed[j]) is Some)
            ==> {
            &&& spec_fungibles(assets, parsed) matches Some(fs)
            &&& fs.len() == amounts_before(assets, assets.len() as int)
            &&& forall|j: int|
                0 <= j < assets.len() && has_amount(assets[j]) ==> fs[amounts_before(assets, j) as int]
                    == (assets[j].0@, (#[trigger] parsed[j])->0)
        },
        (exists|j: int| 0 <= j < assets.len() && has_amount(assets[j]) && (#[trigger] parsed[j]) is None)
            ==> spec_fungibles(assets, parsed) is None,
    decreases assets.len(),
{
    if assets.len() > 0 {
        let n = assets.len() - 1;
        let dl = assets.drop_last();
        law_recipient_receives_every_amount(dl, parsed);
        assert forall|j: int| 0 <= j <= n implies amounts_before(dl, j) == amounts_before(assets, j) by {
            lemma_amounts_before_prefix(dl, assets, j);
        }
        if exists|j: int| 0 <= j < assets.len() && has_amount(assets[j]) && (#[trigger] parsed[j]) is None {
            let j = choose|j: int| 0 <= j < assets.len() && has_amount(assets[j]) && (#[trigger] parsed[j]) is None;
            if j < n {
                assert(dl[j] == assets[j]);
            }
        }
        if forall|j: int| 0 <= j < assets.len() && has_amount(assets[j]) ==> (#[trigger] parsed[j]) is Some {
            assert forall|j: int| 0 <= j < dl.len() && has_amount(dl[j]) implies (#[trigger] parsed[j]) is Some by {
                assert(dl[j] == assets[j]);
            }
            let fs0 = spec_fungibles(dl, parsed)->0;
            let fs = spec_fungibles(assets, parsed)->0;
            assert forall|j: int| 0 <= j < assets.len() && has_amount(assets[j]) implies fs[amounts_before(assets, j) as int]
                == (assets[j].0@, (#[trigger] parsed[j])->0) by {
                if j < n {
                    assert(dl[j] == assets[j]);
                    lemma_amounts_before_grows(assets, j, n);
                }
            }
        }
    }
}

/// What the review shows of a recipient's assets: exactly the assets with a typed amount, in
/// their order, each as its amount and symbol (the `r`-th asset with an amount is the `r`-th
/// line).
pub proof fn law_review_shows_every_amount(assets: Seq<(ResourceAddress, (String, String))>)
    ensures
        asset_lines(assets).len() == amounts_before(assets, assets.len() as int),
        forall|j: int|
            0 <= j < assets.len() && has_amount(#[trigger] assets[j]) ==> asset_lines(
                assets,
            )[amounts_before(assets, j) as int] == (ReviewLine::Asset {
                amount: assets[j].1.1,
                symbol: assets[j].1.0,
            }),
    decreases assets.len(),
{
    if assets.len() > 0 {
        let n = assets.len() - 1;
        let dl = assets.drop_last();
        law_review_shows_every_amount(dl);
        assert forall|j: int| 0 <= j <= n implies amounts_before(dl, j) == amounts_before(assets, j) by {
            lemma_amounts_before_prefix(dl, assets, j);
        }
        assert forall|j: int| 0 <= j < assets.len() && has_amount(#[trigger] assets[j]) implies asset_lines(
            assets,
        )[amounts_before(assets, j) as int] == (ReviewLine::Asset {
            amount: assets[j].1.1,
            symbol: assets[j].1.0,
        }) by {
            if j < n {
                assert(dl[j] == assets[j]);
                lemma_amounts_before_grows(assets, j, n);
            }
        }
    }
}

/// Whether a recipient has something to receive: its tokens can be read and there is one.
pub open spec fn receives_something<D>(r: Recipient, parsed: Seq<Option<D>>) -> bool {
    spec_fungibles(r.resources.entries(), parsed) matches Some(fs) && fs.len() > 0
}

/// How many of the first `k` recipients have something to receive.
pub open spec fn receivers_before<D>(recipients: Seq<Recipient>, parsed: Seq<Seq<Option<D>>>, k: int) -> nat
    decreases k,
{
    if k <= 0 {
        0
    } else {
        receivers_before(recipients, parsed, k - 1) + if receives_something(
            recipients[k - 1],
            parsed[k - 1],
        ) {
            1nat
        } else {
            0nat
        }
    }
}

/// The count of receivers among the first `k` recipients reads only those recipients.
pub proof fn lemma_receivers_before_prefix<D>(
    s: Seq<Recipient>,
    t: Seq<Recipient>,
    parsed: Seq<Seq<Option<D>>>,
    k: int,
)
    requires
        0 <= k <= s.len(),
        k <= t.len(),
        forall|i: int| 0 <= i < k ==> s[i] == t[i],
    ensures
        receivers_before(s, parsed, k) == receivers_before(t, parsed, k),
    decreases k,
{
    if k > 0 {
        lemma_receivers_before_prefix(s, t, parsed, k - 1);
    }
}

/// A receiver comes before every later recipient in the count.
pub proof fn lemma_receivers_before_grows<D>(recipients: Seq<Recipient>, parsed: Seq<Seq<Option<D>>>, j: int, k: int)
    requires
        0 <= j < k,
        receives_something(recipients[j], parsed[j]),
    ensures
        receivers_before(recipients, parsed, j) < receivers_before(recipients, parsed, k),
    decreases k,
{
    if k > j + 1 {
        lemma_receivers_before_grows(recipients, parsed, j, k - 1);
    }
}

/// Who receives what in the request: when every recipient has an address and readable
/// tokens, exactly the recipients with something to receive, in their order, each with its
/// address and its tokens (the `r`-th such recipient is the `r`-th transfer); a recipient
/// without an address, or with a typed amount that is not a decimal, leaves nothing to send.
pub proof fn law_every_receiver_is_in_the_request<D>(recipients: Seq<Recipient>, parsed: Seq<Seq<Option<D>>>)
    requires
        recipients.len() <= parsed.len(),
    ensures
        (forall|k: int|
            0 <= k < recipients.len() ==> (#[trigger] recipients[k]).address is Some && spec_fungibles(
                recipients[k].resources.entries(),
                parsed[k],
            ) is Some) ==> {
            &&& spec_transfers(recipients, parsed) matches Some(ts)
            &&& ts.len() == receivers_before(recipients, parsed, recipients.len() as int)
            &&& forall|k: int|
                0 <= k < recipients.len() && receives_something(#[trigger] recipients[k], parsed[k])
                    ==> ts[receivers_before(recipients, parsed, k) as int] == (
                    recipients[k].address->0@,
                    spec_fungibles(recipients[k].resources.entries(), parsed[k])->0,
                )
        },
        (exists|k: int|
            0 <= k < recipients.len() && ((#[trigger] recipients[k]).address is None || spec_fungibles(
                recipients[k].resources.entries(),
                parsed[k],
            ) is None)) ==> spec_transfers(recipients, parsed) is None,
    decreases recipients.len(),
{
    if recipients.len() > 0 {
        let n = recipients.len() - 1;
        let dl = recipients.drop_last();
        law_every_receiver_is_in_the_request(dl, parsed);
        assert forall|k: int| 0 <= k <= n implies receivers_before(dl, parsed, k) == receivers_before(
            recipients,
            parsed,
            k,
        ) by {
            lemma_receivers_before_prefix(dl, recipients, parsed, k);
        }
        if exists|k: int|
            0 <= k < recipients.len() && ((#[trigger] recipients[k]).address is None || spec_fungibles(
                recipients[k].resources.entries(),
                parsed[k],
            ) is None) {
            let k = choose|k: int|
                0 <= k < recipients.len() && ((#[trigger] recipients[k]).address is None
                    || spec_fungibles(recipients[k].resources.entries(), parsed[k]) is None);
            if k < n {
                assert(dl[k] == recipients[k]);
            }
        }
        if forall|k: int|
            0 <= k < recipients.len() ==> (#[trigger] recipients[k]).address is Some && spec_fungibles(
                recipients[k].resources.entries(),
                parsed[k],
            ) is Some {
            assert forall|k: int| 0 <= k < dl.len() implies (#[trigger] dl[k]).address is Some
                && spec_fungibles(dl[k].resources.entries(), parsed[k]) is Some by {
                assert(dl[k] == recipients[k]);
            }
            assert(recipients[n].address is Some);
            let ts = spec_transfers(recipients, parsed)->0;
            assert forall|k: int|
                0 <= k < recipients.len() && receives_something(#[trigger] recipients[k], parsed[k])
                    implies ts[receivers_before(recipients, parsed, k) as int] == (
                    recipients[k].address->0@,
                    spec_fungibles(recipients[k].resources.entries(), parsed[k])->0,
                ) by {
                if k < n {
                    assert(dl[k] == recipients[k]);
                    lemma_receivers_before_grows(recipients, parsed, k, n);
                }
            }
        }
    }
}

/// How many review lines a recipient gets: none without an address or without an amount;
/// otherwise its address and one line per asset with an amount.
pub open spec fn review_block_len(r: Recipient) -> nat {
    match r.address {
        None => 0,
        Some(_) => if asset_lines(r.resources.entries()).len() == 0 {
            0
        } else {
            1 + asset_lines(r.resources.entries()).len()
        },
    }
}

/// How many review lines the first `k` recipients get.
pub open spec fn review_lines_before(recipients: Seq<Recipient>, k: int) -> nat
    decreases k,
{
    if k <= 0 {
        0
    } else {
        review_lines_before(recipients, k - 1) + review_block_len(recipients[k - 1])
    }
}

/// The count of review lines of the first `k` recipients reads only those recipients.
pub proof fn lemma_review_lines_before_prefix(s: Seq<Recipient>, t: Seq<Recipient>, k: int)
    requires
        0 <= k <= s.len(),
        k <= t.len(),
        forall|i: int| 0 <= i < k ==> s[i] == t[i],
    ensures
        review_lines_before(s, k) == review_lines_before(t, k),
    decreases k,
{
    if k > 0 {
        lemma_review_lines_before_prefix(s, t, k - 1);
    }
}

/// The lines of a recipient end before those of any later recipient begin.
pub proof fn lemma_review_lines_before_grows(recipients: Seq<Recipient>, j: int, k: int)
    requires
        0 <= j < k,
    ensures
        review_lines_before(recipients, j) + review_block_len(recipients[j]) <= review_lines_before(
            recipients,
            k,
        ),
    decreases k,
{
    if k > j + 1 {
        lemma_review_lines_before_grows(recipients, j, k - 1);
    }
}

/// The review's recipient part: for each recipient with an address and an amount, in order,
/// its address and then its asset lines, with nothing in between and nothing else.
pub proof fn lemma_recipient_lines_blocks(recipients: Seq<Recipient>)
    ensures
        recipient_lines(recipients).len() == review_lines_before(recipients, recipients.len() as int),
        forall|k: int|
            0 <= k < recipients.len() && review_block_len(#[trigger] recipients[k]) > 0 ==> {
                let start = review_lines_before(recipients, k) as int;
                let assets = asset_lines(recipients[k].resources.entries());
                &&& recipient_lines(recipients)[start] == ReviewLine::To(recipients[k].address->0)
                &&& forall|m: int|
                    0 <= m < assets.len() ==> recipient_lines(recipients)[start + 1 + m]
                        == #[trigger] assets[m]
            },
    decreases recipients.len(),
{
    if recipients.len() > 0 {
        let n = recipients.len() - 1;
        let dl = recipients.drop_last();
        lemma_recipient_lines_blocks(dl);
        assert forall|k: int| 0 <= k <= n implies review_lines_before(dl, k) == review_lines_before(
            recipients,
            k,
        ) by {
            lemma_review_lines_before_prefix(dl, recipients, k);
        }
        assert(recipients.last() == recipients[n]);
        assert forall|k: int|
            0 <= k < recipients.len() && review_block_len(#[trigger] recipients[k]) > 0 implies {
            let start = review_lines_before(recipients, k) as int;
            let assets = asset_lines(recipients[k].resources.entries());
            &&& recipient_lines(recipients)[start] == ReviewLine::To(recipients[k].address->0)
            &&& forall|m: int|
                0 <= m < assets.len() ==> recipient_lines(recipients)[start + 1 + m]
                    == #[trigger] assets[m]
        } by {
            if k < n {
                assert(dl[k] == recipients[k]);
                lemma_review_lines_before_grows(recipients, k, n);
            }
        }
    }
}

/// The review shown before sending: the sender first, if there is one; then, for each
/// recipient with an address and at least one amount, in order, its address followed by one
/// line per asset with an amount (the `r`-th such asset as the `r`-th of its lines, with its
/// amount and symbol); nothing else.
pub proof fn law_review_shows_every_recipient(from_account: Option<Account>, recipients: Seq<Recipient>)
    ensures
        ({
            let review = review_lines(from_account, recipients);
            let off: int = if from_account is Some {
                1
            } else {
                0
            };
            &&& review.len() == off + review_lines_before(recipients, recipients.len() as int)
            &&& from_account matches Some(a) ==> review[0] == ReviewLine::From(a)
            &&& forall|k: int|
                0 <= k < recipients.len() && review_block_len(#[trigger] recipients[k]) > 0 ==> review[off
                    + review_lines_before(recipients, k)] == ReviewLine::To(recipients[k].address->0)
            &&& forall|k: int, j: int|
                0 <= k < recipients.len() && 0 <= j < recipients[k].resources.entries().len()
                    && recipients[k].address is Some && has_amount(
                    #[trigger] recipients[k].resources.entries()[j],
                ) ==> review[off + review_lines_before(recipients, k) + 1 + amounts_before(
                    recipients[k].resources.entries(),
                    j,
                )] == (ReviewLine::Asset {
                    amount: recipients[k].resources.entries()[j].1.1,
                    symbol: recipients[k].resources.entries()[j].1.0,
                })
        }),
{
    lemma_recipient_lines_blocks(recipients);
    let rl = recipient_lines(recipients);
    let review = review_lines(from_account, recipients);
    let off: int = if from_account is Some {
        1
    } else {
        0
    };
    assert forall|i: int| 0 <= i < rl.len() implies review[off + i] == rl[i] by {}
    assert forall|k: int, j: int|
        0 <= k < recipients.len() && 0 <= j < recipients[k].resources.entries().len()
            && recipients[k].address is Some && has_amount(
            #[trigger] recipients[k].resources.entries()[j],
        ) implies review[off + review_lines_before(recipients, k) + 1 + amounts_before(
            recipients[k].resources.entries(),
            j,
        )] == (ReviewLine::Asset {
            amount: recipients[k].resources.entries()[j].1.1,
            symbol: recipients[k].resources.entries()[j].1.0,
        }) by {
        let e = recipients[k].resources.entries();
        law_review_shows_every_amount(e);
        lemma_amounts_before_grows(e, j, e.len() as int);
        let assets = asset_lines(e);
        let m = amounts_before(e, j) as int;
        assert(review_block_len(recipients[k]) > 0);
        assert(assets[m] == assets[m]);
        lemma_review_lines_before_grows(recipients, k, recipients.len() as int);
    }
    assert forall|k: int|
        0 <= k < recipients.len() && review_block_len(#[trigger] recipients[k]) > 0 implies review[off
            + review_lines_before(recipients, k)] == ReviewLine::To(recipients[k].address->0) by {
        lemma_review_lines_before_grows(recipients, k, recipients.len() as int);
    }
}

} // verus!
