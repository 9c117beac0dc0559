//! The personas tab: creating a persona from a label and the password, and editing the data
//! that a persona shares.
use vstd::prelude::*;

use crate::keyed::KeyedList;
use crate::model::{AppError, NameVariant, Persona, PersonaData, PersonaName};
use crate::secret::Password;
use crate::text::texts_equal;

verus! {

pub const LABEL_AND_PASSWORD_NEEDED: &'static str = "Enter a label and your password";

pub const PERSONA_DATA_SAVED: &'static str = "Persona data saved";

pub const PERSONA_CREATED: &'static str = "Persona created: ";

pub enum Message {
    InputLabel(String),
    InputPassword(String),
    Create,
    /// The persona's creation finished; the new persona on success.
    Created(Result<Persona, AppError>),
    /// Begin editing the persona with this identity address, with its current data.
    EditPersona(String),
    EditGiven(String),
    EditFamily(String),
    EditEmail(String),
    EditPhone(String),
    SaveData,
    CancelEdit,
}

/// The data of one persona while it is edited. One email address and one phone number are
/// edited; an empty field stands for none.
pub struct PersonaEdit {
    pub identity_address: String,
    pub given: String,
    pub family: String,
    pub email: String,
    pub phone: String,
}

pub struct PersonaEditView {
    pub identity_address: Seq<char>,
    pub given: Seq<char>,
    pub family: Seq<char>,
    pub email: Seq<char>,
    pub phone: Seq<char>,
}

impl View for PersonaEdit {
    type V = PersonaEditView;

    open spec fn view(&self) -> PersonaEditView {
        PersonaEditView {
            identity_address: self.identity_address@,
            given: self.given@,
            family: self.family@,
            email: self.email@,
            phone: self.phone@,
        }
    }
}

pub struct PersonaNameView {
    pub given: Seq<char>,
    pub family: Seq<char>,
    pub variant: NameVariant,
}

pub struct PersonaDataView {
    pub name: Option<PersonaNameView>,
    pub email_addresses: Seq<Seq<char>>,
    pub phone_numbers: Seq<Seq<char>>,
}

pub open spec fn strings_view(v: Seq<String>) -> Seq<Seq<char>> {
    v.map_values(|s: String| s@)
}

pub open spec fn persona_data_view(d: PersonaData) -> PersonaDataView {
    PersonaDataView {
        name: match d.name {
            Some(n) => Some(PersonaNameView { given: n.given@, family: n.family@, variant: n.variant }),
            None => None,
        },
        email_addresses: strings_view(d.email_addresses@),
        phone_numbers: strings_view(d.phone_numbers@),
    }
}

/// The first text of a list, or the empty text.
pub open spec fn first_or_empty(v: Seq<String>) -> Seq<char> {
    if v.len() > 0 {
        v[0]@
    } else {
        Seq::empty()
    }
}

/// A persona as the editor opens it: its names, its first email address and phone number.
pub open spec fn edit_of(p: Persona) -> PersonaEditView {
    PersonaEditView {
        identity_address: p.identity_address@,
        given: match p.persona_data.name {
            Some(n) => n.given@,
            None => Seq::empty(),
        },
        family: match p.persona_data.name {
            Some(n) => n.family@,
            None => Seq::empty(),
        },
        email: first_or_empty(p.persona_data.email_addresses@),
        phone: first_or_empty(p.persona_data.phone_numbers@),
    }
}

/// A list of one text, or none for the empty text.
pub open spec fn one_or_none(s: Seq<char>) -> Seq<Seq<char>> {
    if s.len() == 0 {
        Seq::empty()
    } else {
        seq![s]
    }
}

/// The data that an edit saves: empty fields are dropped, a name gets the default variant.
pub open spec fn data_of(e: PersonaEditView) -> PersonaDataView {
    PersonaDataView {
        name: if e.given.len() == 0 && e.family.len() == 0 {
            None
        } else {
            Some(PersonaNameView { given: e.given, family: e.family, variant: NameVariant::Western })
        },
        email_addresses: one_or_none(e.email),
        phone_numbers: one_or_none(e.phone),
    }
}

fn first_or_new(v: &Vec<String>) -> (r: String)
    ensures
        r@ == first_or_empty(v@),
{
    if v.len() > 0 {
        v[0].clone()
    } else {
        String::new()
    }
}

fn one_or_none_of(s: &String) -> (r: Vec<String>)
    ensures
        strings_view(r@) == one_or_none(s@),
{
    let mut r: Vec<String> = Vec::new();
    if !s.as_str().is_empty() {
        r.push(s.clone());
        assert(strings_view(r@) =~= seq![s@]);
    } else {
        assert(strings_view(r@) =~= Seq::<Seq<char>>::empty());
    }
    r
}

impl PersonaEdit {
    pub fn from_persona(persona: &Persona) -> (r: Self)
        ensures
            r@ == edit_of(*persona),
    {
        let data = &persona.persona_data;
        let (given, family) = match &data.name {
            Some(n) => (n.given.clone(), n.family.clone()),
            None => (String::new(), String::new()),
        };
        PersonaEdit {
            identity_address: persona.identity_address.clone(),
            given,
            family,
            email: first_or_new(&data.email_addresses),
            phone: first_or_new(&data.phone_numbers),
        }
    }

    /// The edit as the persona's data, dropping empty fields.
    pub fn to_persona_data(&self) -> (r: PersonaData)
        ensures
            persona_data_view(r) == data_of(self@),
    {
        let name = if self.given.as_str().is_empty() && self.family.as_str().is_empty() {
            None
        } else {
            Some(
                PersonaName {
                    given: self.given.clone(),
                    family: self.family.clone(),
                    variant: NameVariant::default_variant(),
                },
            )
        };
        PersonaData {
            name,
            email_addresses: one_or_none_of(&self.email),
            phone_numbers: one_or_none_of(&self.phone),
        }
    }
}

/// Saving an edit and opening the saved persona again gives the same edit back.
pub proof fn law_edit_round_trip(e: PersonaEditView, saved: Persona)
    requires
        saved.identity_address@ == e.identity_address,
        persona_data_view(saved.persona_data) == data_of(e),
    ensures
        edit_of(saved) == e,
{
    let d = saved.persona_data;
    let emails = strings_view(d.email_addresses@);
    let phones = strings_view(d.phone_numbers@);
    assert(emails.len() == d.email_addresses@.len());
    assert(phones.len() == d.phone_numbers@.len());
    if e.email.len() > 0 {
        assert(emails == seq![e.email]);
        assert(emails[0] == d.email_addresses@[0]@);
    }
    if e.phone.len() > 0 {
        assert(phones == seq![e.phone]);
        assert(phones[0] == d.phone_numbers@[0]@);
    }
    let r = edit_of(saved);
    assert(r.given == e.given);
    assert(r.family == e.family);
    assert(r.email == e.email);
    assert(r.phone == e.phone);
}

pub struct PersonasView {
    pub label: String,
    pub password: Password,
    pub editing: Option<PersonaEdit>,
}

pub struct PersonasViewState {
    pub label: Seq<char>,
    pub password: Seq<char>,
    pub editing: Option<PersonaEditView>,
}

pub open spec fn edit_view(e: Option<PersonaEdit>) -> Option<PersonaEditView> {
    match e {
        Some(x) => Some(x@),
        None => None,
    }
}

impl View for PersonasView {
    type V = PersonasViewState;

    open spec fn view(&self) -> PersonasViewState {
        PersonasViewState {
            label: self.label@,
            password: self.password@,
            editing: edit_view(self.editing),
        }
    }
}

/// What the caller is left to do after a message of the tab.
pub enum PersonasAction {
    Idle,
    /// Show this notice.
    Notify(String),
    /// Pass the error on.
    Failed(AppError),
    /// Create a persona with this label, deriving its key with the wallet's password.
    CreatePersona { label: String, password: Password },
    /// Add the new persona to the wallet, then show the notice.
    Register { persona: Persona, notice: String },
    /// Store this data for the persona, then hand the outcome to `PersonasView::data_saved`.
    SaveData { identity_address: String, data: PersonaData },
}

/// A field of the open edit changes; without an open edit nothing does.
pub open spec fn edit_field(
    before: Option<PersonaEditView>,
    field: int,
    text: Seq<char>,
) -> Option<PersonaEditView> {
    match before {
        Some(e) => Some(
            if field == 0 {
                PersonaEditView { given: text, ..e }
            } else if field == 1 {
                PersonaEditView { family: text, ..e }
            } else if field == 2 {
                PersonaEditView { email: text, ..e }
            } else {
                PersonaEditView { phone: text, ..e }
            },
        ),
        None => None,
    }
}

/// The tab after a message, and what is left to the caller.
pub open spec fn personas_updated(
    before: PersonasViewState,
    after: PersonasViewState,
    message: Message,
    personas: Map<Seq<char>, Persona>,
    action: PersonasAction,
) -> bool {
    match message {
        Message::InputLabel(input) => after == PersonasViewState { label: input@, ..before }
            && action is Idle,
        Message::InputPassword(input) => after == PersonasViewState {
            password: input@,
            ..before
        } && action is Idle,
        Message::EditPersona(address) => {
            &&& action is Idle
            &&& after == PersonasViewState {
                editing: if personas.contains_key(address@) {
                    Some(edit_of(personas[address@]))
                } else {
                    None
                },
                ..before
            }
        },
        Message::EditGiven(input) => after == PersonasViewState {
            editing: edit_field(before.editing, 0, input@),
            ..before
        } && action is Idle,
        Message::EditFamily(input) => after == PersonasViewState {
            editing: edit_field(before.editing, 1, input@),
            ..before
        } && action is Idle,
        Message::EditEmail(input) => after == PersonasViewState {
            editing: edit_field(before.editing, 2, input@),
            ..before
        } && action is Idle,
        Message::EditPhone(input) => after == PersonasViewState {
            editing: edit_field(before.editing, 3, input@),
            ..before
        } && action is Idle,
        Message::CancelEdit => after == PersonasViewState { editing: None, ..before }
            && action is Idle,
        Message::SaveData => match before.editing {
            Some(e) => {
                &&& after == PersonasViewState { editing: None, ..before }
                &&& action matches PersonasAction::SaveData { identity_address, data }
                &&& identity_address@ == e.identity_address
                &&& persona_data_view(data) == data_of(e)
            },
            None => after == before && action is Idle,
        },
        Message::Create => if before.label.len() == 0 || before.password.len() == 0 {
            &&& after == before
            &&& action matches PersonasAction::Notify(n) && n@ == LABEL_AND_PASSWORD_NEEDED@
        } else {
            &&& after == PersonasViewState {
                label: Seq::empty(),
                password: Seq::empty(),
                ..before
            }
            &&& action matches PersonasAction::CreatePersona { label, password }
            &&& label@ == before.label
            &&& password@ == before.password
        },
        Message::Created(result) => after == before && match result {
            Ok(p) => action matches PersonasAction::Register { persona, notice } && persona == p
                && notice@ == PERSONA_CREATED@ + p.identity_address@,
            Err(err) => action == PersonasAction::Failed(err),
        },
    }
}

impl PersonasView {
    pub fn new() -> (r: Self)
        ensures
            r@ == (PersonasViewState {
                label: Seq::empty(),
                password: Seq::empty(),
                editing: None,
            }),
    {
        PersonasView { label: String::new(), password: Password::new(), editing: None }
    }

    /// Whether creating is offered: there is a label and a password.
    pub fn create_enabled(&self) -> (r: bool)
        ensures
            r == (self@.label.len() > 0 && self@.password.len() > 0),
    {
        !self.label.as_str().is_empty() && !self.password.is_empty()
    }

    /// Handles a message of the tab, given the wallet's personas by identity address.
    pub fn update(&mut self, message: Message, personas: &KeyedList<String, Persona>) -> (action: PersonasAction)
        ensures
            personas_updated(old(self)@, final(self)@, message, personas@, action),
    {
        match message {
            Message::InputLabel(input) => {
                self.label = input;
                PersonasAction::Idle
            },
            Message::InputPassword(input) => {
                let mut input = input;
                self.password.replace_with(&mut input);
                PersonasAction::Idle
            },
            Message::EditPersona(address) => {
                self.editing = match personas.get(&address) {
                    Some(p) => Some(PersonaEdit::from_persona(p)),
                    None => None,
                };
                PersonasAction::Idle
            },
            Message::EditGiven(input) => {
                if let Some(e) = self.editing.take() {
                    self.editing = Some(PersonaEdit { given: input, ..e });
                }
                PersonasAction::Idle
            },
            Message::EditFamily(input) => {
                if let Some(e) = self.editing.take() {
                    self.editing = Some(PersonaEdit { family: input, ..e });
                }
                PersonasAction::Idle
            },
            Message::EditEmail(input) => {
                if let Some(e) = self.editing.take() {
                    self.editing = Some(PersonaEdit { email: input, ..e });
                }
                PersonasAction::Idle
            },
            Message::EditPhone(input) => {
                if let Some(e) = self.editing.take() {
                    self.editing = Some(PersonaEdit { phone: input, ..e });
                }
                PersonasAction::Idle
            },
            Message::CancelEdit => {
                self.editing = None;
                PersonasAction::Idle
            },
            Message::SaveData => {
                match self.editing.take() {
                    Some(e) => {
                        let data = e.to_persona_data();
                        PersonasAction::SaveData { identity_address: e.identity_address, data }
                    },
                    None => PersonasAction::Idle,
                }
            },
            Message::Create => {
                if self.label.as_str().is_empty() || self.password.is_empty() {
                    return PersonasAction::Notify(String::from_str(LABEL_AND_PASSWORD_NEEDED));
                }
                let mut label = String::new();
                std::mem::swap(&mut label, &mut self.label);
                let mut password = Password::new();
                std::mem::swap(&mut password, &mut self.password);
                PersonasAction::CreatePersona { label, password }
            },
            Message::Created(result) => {
                match result {
                    Ok(persona) => {
                        let mut notice = String::from_str(PERSONA_CREATED);
                        notice.append(persona.identity_address.as_str());
                        PersonasAction::Register { persona, notice }
                    },
                    Err(err) => PersonasAction::Failed(err),
                }
            },
        }
    }
}

impl PersonasView {
    /// What follows the storing of an edited persona's data: the notice that it was saved, or
    /// the error passed on.
    pub fn data_saved(result: Result<(), AppError>) -> (action: PersonasAction)
        ensures
            match result {
                Ok(_) => action matches PersonasAction::Notify(text) && text@ == PERSONA_DATA_SAVED@,
                Err(e) => action == PersonasAction::Failed(e),
            },
    {
        match result {
            Ok(_) => PersonasAction::Notify(String::from_str(PERSONA_DATA_SAVED)),
            Err(e) => PersonasAction::Failed(e),
        }
    }
}

pub const NAME_LINE: &'static str = "Name: ";

pub const EMAIL_LINE: &'static str = "Email: ";

pub const PHONE_LINE: &'static str = "Phone: ";

/// What stands between the given and the family name.
pub const NAME_SEPARATOR: &'static str = " ";

/// Each text of a list behind a prefix.
pub open spec fn prefixed(prefix: Seq<char>, v: Seq<String>) -> Seq<Seq<char>> {
    v.map_values(|s: String| prefix + s@)
}

/// The lines that show what a persona shares: its name, each email address, each phone
/// number.
pub open spec fn shared_lines(d: PersonaData) -> Seq<Seq<char>> {
    (match d.name {
        Some(n) => seq![NAME_LINE@ + n.given@ + NAME_SEPARATOR@ + n.family@],
        None => Seq::empty(),
    }) + prefixed(EMAIL_LINE@, d.email_addresses@) + prefixed(PHONE_LINE@, d.phone_numbers@)
}

/// Whether the persona with the given identity address is the one being edited.
pub open spec fn edits(editing: Option<PersonaEdit>, address: Seq<char>) -> bool {
    editing matches Some(e) && e.identity_address@ == address
}

/// Below a persona's label and address: the edit form while it is edited, else what it
/// shares (with a button that starts editing).
pub enum CardBody {
    Editing,
    Shared(Vec<String>),
}

/// One persona's card in the list.
pub struct PersonaCard {
    pub label: String,
    pub identity_address: String,
    pub body: CardBody,
}

fn push_prefixed(lines: &mut Vec<String>, prefix: &str, texts: &Vec<String>)
    ensures
        final(lines)@.map_values(|s: String| s@) == old(lines)@.map_values(|s: String| s@)
            + prefixed(prefix@, texts@),
{
    let ghost start = lines@.map_values(|s: String| s@);
    let n = texts.len();
    let mut j: usize = 0;
    while j < n
        invariant
            n == texts@.len(),
            j <= n,
            lines@.map_values(|s: String| s@) == start + prefixed(prefix@, texts@.take(j as int)),
        decreases n - j,
    {
        let mut line = String::from_str(prefix);
        line.append(texts[j].as_str());
        let ghost before = lines@;
        lines.push(line);
        assert(lines@.map_values(|s: String| s@) =~= before.map_values(|s: String| s@).push(
            prefix@ + texts@[j as int]@,
        ));
        assert(prefixed(prefix@, texts@.take(j + 1)) =~= prefixed(prefix@, texts@.take(j as int)).push(
            prefix@ + texts@[j as int]@,
        ));
        j += 1;
    }
    assert(texts@.take(n as int) =~= texts@);
}

impl PersonasView {
    /// The card of a persona: its label and address, then the edit form while this persona is
    /// edited, else the lines of what it shares.
    pub fn persona_card(&self, persona: &Persona) -> (r: PersonaCard)
        ensures
            r.label@ == persona.label@,
            r.identity_address@ == persona.identity_address@,
            if edits(self.editing, persona.identity_address@) {
                r.body is Editing
            } else {
                r.body matches CardBody::Shared(lines) && lines@.map_values(|s: String| s@)
                    == shared_lines(persona.persona_data)
            },
    {
        let editing = match &self.editing {
            Some(e) => texts_equal(e.identity_address.as_str(), persona.identity_address.as_str()),
            None => false,
        };
        let body = if editing {
            CardBody::Editing
        } else {
            let data = &persona.persona_data;
            let mut lines: Vec<String> = Vec::new();
            match &data.name {
                Some(n) => {
                    let mut line = String::from_str(NAME_LINE);
                    line.append(n.given.as_str());
                    line.append(NAME_SEPARATOR);
                    line.append(n.family.as_str());
                    lines.push(line);
                },
                None => {},
            }
            let ghost head = lines@.map_values(|s: String| s@);
            assert(head =~= match data.name {
                Some(n) => seq![NAME_LINE@ + n.given@ + NAME_SEPARATOR@ + n.family@],
                None => Seq::<Seq<char>>::empty(),
            });
            push_prefixed(&mut lines, EMAIL_LINE, &data.email_addresses);
            push_prefixed(&mut lines, PHONE_LINE, &data.phone_numbers);
            CardBody::Shared(lines)
        };
        PersonaCard {
            label: persona.label.clone(),
            identity_address: persona.identity_address.clone(),
            body,
        }
    }
}

/// The list order of personas: by id, smallest first.
pub open spec fn ordered_by_id(entries: Seq<(String, Persona)>, order: Seq<usize>) -> bool {
    &&& order.len() == entries.len()
    &&& order.no_duplicates()
    &&& forall|k: int| 0 <= k < order.len() ==> (#[trigger] order[k]) < entries.len()
    &&& forall|a: int, b: int|
        0 <= a < b < order.len() ==> entries[(#[trigger] order[a]) as int].1.id <= entries[(
        #[trigger] order[b]) as int].1.id
}

/// The order in which the tab lists the wallet's personas: the positions of the table's
/// entries, each once, by id.
pub fn personas_by_id(personas: &KeyedList<String, Persona>) -> (r: Vec<usize>)
    ensures
        ordered_by_id(personas.entries(), r@),
{
    let ghost es = personas.entries();
    let n = personas.len();
    let mut r: Vec<usize> = Vec::new();
    let mut i: usize = 0;
    while i < n
        invariant
            n == es.len(),
            es == personas.entries(),
            i <= n,
            r@.len() == i,
            r@.no_duplicates(),
            forall|k: int| 0 <= k < r@.len() ==> (#[trigger] r@[k]) < i,
            forall|a: int, b: int|
                0 <= a < b < r@.len() ==> es[(#[trigger] r@[a]) as int].1.id <= es[(
                #[trigger] r@[b]) as int].1.id,
        decreases n - i,
    {
        let id = personas.entry_at(i).1.id;
        let mut k: usize = 0;
        while k < r.len() && personas.entry_at(r[k]).1.id <= id
            invariant
                n == es.len(),
                es == personas.entries(),
                i < n,
                k <= r@.len(),
                forall|q: int| 0 <= q < r@.len() ==> (#[trigger] r@[q]) < i,
                id == es[i as int].1.id,
                forall|a: int| 0 <= a < k ==> es[(#[trigger] r@[a]) as int].1.id <= id,
            decreases r@.len() - k,
        {
            k += 1;
        }
        let ghost before = r@;
        r.insert(k, i);
        assert(r@ =~= before.insert(k as int, i));
        assert forall|a: int, b: int| 0 <= a < b < r@.len() implies es[(#[trigger] r@[a]) as int].1.id
            <= es[(#[trigger] r@[b]) as int].1.id by {
            if b < k {
                assert(r@[a] == before[a] && r@[b] == before[b]);
            } else if b == k {
                assert(r@[a] == before[a]);
            } else if a == k {
                assert(r@[b] == before[b - 1]);
            } else if a < k {
                assert(r@[a] == before[a] && r@[b] == before[b - 1]);
                assert(es[before[k as int] as int].1.id > id);
            } else {
                assert(r@[a] == before[a - 1] && r@[b] == before[b - 1]);
            }
        }
        assert forall|a: int, b: int| 0 <= a < r@.len() && 0 <= b < r@.len() && a != b implies r@[a]
            != r@[b] by {
            if a != k as int && b != k as int {
                let a0 = if a < k { a } else { a - 1 };
                let b0 = if b < k { b } else { b - 1 };
                assert(r@[a] == before[a0] && r@[b] == before[b0]);
            } else if a == k as int {
                let b0 = if b < k { b } else { b - 1 };
                assert(r@[b] == before[b0]);
            } else {
                let a0 = if a < k { a } else { a - 1 };
                assert(r@[a] == before[a0]);
            }
        }
        i += 1;
    }
    r
}

} // verus!
