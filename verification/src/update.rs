//! Changes to single fields of a principal.
//!
//! An update names a field, says what to do with it and carries a value.
//! `SetValue` replaces the field and takes a value of the field's own shape.
//! `AddItem` and `RemoveItem` work on the list fields only and take the one
//! item as a string. Anything else is a mistake of the caller, found by
//! [`PrincipalUpdate::validate`] before a backend is asked to do anything.

use crate::principal::Type;
use crate::text::str_eq;
use vstd::prelude::*;

verus! {

/// The fields of a principal that an update can name.
#[derive(Debug, Clone, Copy, PartialEq, Eq, Hash, Structural)]
pub enum PrincipalField {
    Name,
    Type,
    Quota,
    Description,
    Secrets,
    Emails,
    MemberOf,
}

/// What an update does to its field.
#[derive(Debug, Clone, Copy, PartialEq, Eq, Hash, Structural)]
pub enum PrincipalAction {
    SetValue,
    AddItem,
    RemoveItem,
}

/// The value that an update carries.
#[derive(Debug, Clone, PartialEq, Eq)]
pub enum PrincipalValue {
    String(String),
    StringList(Vec<String>),
    Integer(u32),
    Type(Type),
}

/// The shape of a value.
#[derive(Debug, Clone, Copy, PartialEq, Eq, Hash, Structural)]
pub enum ValueKind {
    String,
    StringList,
    Integer,
    Type,
}

/// A value as mathematics sees it.
pub enum ValueView {
    String(Seq<char>),
    StringList(Seq<Seq<char>>),
    Integer(u32),
    Type(Type),
}

impl ValueView {
    pub open spec fn kind(self) -> ValueKind {
        match self {
            ValueView::String(_) => ValueKind::String,
            ValueView::StringList(_) => ValueKind::StringList,
            ValueView::Integer(_) => ValueKind::Integer,
            ValueView::Type(_) => ValueKind::Type,
        }
    }
}

impl View for PrincipalValue {
    type V = ValueView;

    open spec fn view(&self) -> ValueView {
        match self {
            PrincipalValue::String(text) => ValueView::String(text@),
            PrincipalValue::StringList(list) => ValueView::StringList(list.deep_view()),
            PrincipalValue::Integer(number) => ValueView::Integer(*number),
            PrincipalValue::Type(typ) => ValueView::Type(*typ),
        }
    }
}

impl PrincipalValue {
    /// The shape of the value.
    pub fn kind(&self) -> (kind: ValueKind)
        ensures
            kind == self@.kind(),
    {
        match self {
            PrincipalValue::String(_) => ValueKind::String,
            PrincipalValue::StringList(_) => ValueKind::StringList,
            PrincipalValue::Integer(_) => ValueKind::Integer,
            PrincipalValue::Type(_) => ValueKind::Type,
        }
    }
}

impl PrincipalField {
    /// The fields that hold a list.
    pub open spec fn is_list(self) -> bool {
        self == PrincipalField::Secrets || self == PrincipalField::Emails || self
            == PrincipalField::MemberOf
    }

    /// The shape of the value that replaces the field as a whole. Groups are
    /// given by name, so `MemberOf` takes strings like the other lists.
    pub open spec fn kind(self) -> ValueKind {
        match self {
            PrincipalField::Name => ValueKind::String,
            PrincipalField::Type => ValueKind::Type,
            PrincipalField::Quota => ValueKind::Integer,
            PrincipalField::Description => ValueKind::String,
            PrincipalField::Secrets => ValueKind::StringList,
            PrincipalField::Emails => ValueKind::StringList,
            PrincipalField::MemberOf => ValueKind::StringList,
        }
    }

    /// The word that stands for the field where updates are exchanged.
    pub open spec fn token(self) -> Seq<char> {
        match self {
            PrincipalField::Name => "name"@,
            PrincipalField::Type => "type"@,
            PrincipalField::Quota => "quota"@,
            PrincipalField::Description => "description"@,
            PrincipalField::Secrets => "secrets"@,
            PrincipalField::Emails => "emails"@,
            PrincipalField::MemberOf => "memberOf"@,
        }
    }

    /// The field that a word stands for, if it stands for one.
    pub open spec fn of_token(word: Seq<char>) -> Option<PrincipalField> {
        if word == "name"@ {
            Some(PrincipalField::Name)
        } else if word == "type"@ {
            Some(PrincipalField::Type)
        } else if word == "quota"@ {
            Some(PrincipalField::Quota)
        } else if word == "description"@ {
            Some(PrincipalField::Description)
        } else if word == "secrets"@ {
            Some(PrincipalField::Secrets)
        } else if word == "emails"@ {
            Some(PrincipalField::Emails)
        } else if word == "memberOf"@ {
            Some(PrincipalField::MemberOf)
        } else {
            None
        }
    }

    /// Whether the field holds a list.
    pub fn holds_list(&self) -> (list: bool)
        ensures
            list == self.is_list(),
    {
        match self {
            PrincipalField::Secrets | PrincipalField::Emails | PrincipalField::MemberOf => true,
            _ => false,
        }
    }

    /// The shape of the value that replaces the field as a whole.
    pub fn value_kind(&self) -> (kind: ValueKind)
        ensures
            kind == self.kind(),
    {
        match self {
            PrincipalField::Name => ValueKind::String,
            PrincipalField::Type => ValueKind::Type,
            PrincipalField::Quota => ValueKind::Integer,
            PrincipalField::Description => ValueKind::String,
            PrincipalField::Secrets => ValueKind::StringList,
            PrincipalField::Emails => ValueKind::StringList,
            PrincipalField::MemberOf => ValueKind::StringList,
        }
    }

    /// The word that stands for the field where updates are exchanged.
    pub fn as_str(&self) -> (word: &'static str)
        ensures
            word@ == self.token(),
    {
        match self {
            PrincipalField::Name => "name",
            PrincipalField::Type => "type",
            PrincipalField::Quota => "quota",
            PrincipalField::Description => "description",
            PrincipalField::Secrets => "secrets",
            PrincipalField::Emails => "emails",
            PrincipalField::MemberOf => "memberOf",
        }
    }

    /// The field that a word stands for. The words are matched letter for
    /// letter.
    pub fn parse(word: &str) -> (field: Option<PrincipalField>)
        ensures
            field == PrincipalField::of_token(word@),
    {
        if str_eq(word, "name") {
            Some(PrincipalField::Name)
        } else if str_eq(word, "type") {
            Some(PrincipalField::Type)
        } else if str_eq(word, "quota") {
            Some(PrincipalField::Quota)
        } else if str_eq(word, "description") {
            Some(PrincipalField::Description)
        } else if str_eq(word, "secrets") {
            Some(PrincipalField::Secrets)
        } else if str_eq(word, "emails") {
            Some(PrincipalField::Emails)
        } else if str_eq(word, "memberOf") {
            Some(PrincipalField::MemberOf)
        } else {
            None
        }
    }

    /// Each field is found again by its word.
    pub proof fn lemma_token_roundtrip(self)
        ensures
            PrincipalField::of_token(self.token()) == Some(self),
    {
        reveal_strlit("name");
        reveal_strlit("type");
        reveal_strlit("quota");
        reveal_strlit("description");
        reveal_strlit("secrets");
        reveal_strlit("emails");
        reveal_strlit("memberOf");
        assert("name"@.len() == 4 && "type"@.len() == 4 && "quota"@.len() == 5);
        assert("description"@.len() == 11 && "secrets"@.len() == 7 && "emails"@.len() == 6);
        assert("memberOf"@.len() == 8);
        assert("name"@[0] == 'n' && "type"@[0] == 't');
    }
}

impl PrincipalAction {
    /// The word that stands for the action where updates are exchanged.
    pub open spec fn token(self) -> Seq<char> {
        match self {
            PrincipalAction::SetValue => "set"@,
            PrincipalAction::AddItem => "addItem"@,
            PrincipalAction::RemoveItem => "removeItem"@,
        }
    }

    /// The action that a word stands for, if it stands for one.
    pub open spec fn of_token(word: Seq<char>) -> Option<PrincipalAction> {
        if word == "set"@ {
            Some(PrincipalAction::SetValue)
        } else if word == "addItem"@ {
            Some(PrincipalAction::AddItem)
        } else if word == "removeItem"@ {
            Some(PrincipalAction::RemoveItem)
        } else {
            None
        }
    }

    /// The word that stands for the action where updates are exchanged.
    pub fn as_str(&self) -> (word: &'static str)
        ensures
            word@ == self.token(),
    {
        match self {
            PrincipalAction::SetValue => "set",
            PrincipalAction::AddItem => "addItem",
            PrincipalAction::RemoveItem => "removeItem",
        }
    }

    /// The action that a word stands for. The words are matched letter for
    /// letter.
    pub fn parse(word: &str) -> (action: Option<PrincipalAction>)
        ensures
            action == PrincipalAction::of_token(word@),
    {
        if str_eq(word, "set") {
            Some(PrincipalAction::SetValue)
        } else if str_eq(word, "addItem") {
            Some(PrincipalAction::AddItem)
        } else if str_eq(word, "removeItem") {
            Some(PrincipalAction::RemoveItem)
        } else {
            None
        }
    }

    /// Each action is found again by its word.
    pub proof fn lemma_token_roundtrip(self)
        ensures
            PrincipalAction::of_token(self.token()) == Some(self),
    {
        reveal_strlit("set");
        reveal_strlit("addItem");
        reveal_strlit("removeItem");
        assert("set"@.len() == 3 && "addItem"@.len() == 7 && "removeItem"@.len() == 10);
    }
}

/// The shape of the value that `action` takes on `field`; `None` where the
/// action cannot be applied to the field at all.
pub open spec fn expected_kind(action: PrincipalAction, field: PrincipalField) -> Option<
    ValueKind,
> {
    match action {
        PrincipalAction::SetValue => Some(field.kind()),
        PrincipalAction::AddItem | PrincipalAction::RemoveItem => if field.is_list() {
            Some(ValueKind::String)
        } else {
            None
        },
    }
}

/// Why an update is refused.
#[derive(Debug, Clone, Copy, PartialEq, Eq, Hash, Structural)]
pub enum UpdateError {
    /// An item was to be added to, or removed from, a field that holds one
    /// value.
    NotAList,
    /// The value does not have the shape that the field and the action ask
    /// for.
    ValueMismatch,
}

/// What is wrong with an update of these three parts, if anything.
pub open spec fn verdict(action: PrincipalAction, field: PrincipalField, kind: ValueKind) -> Result<
    (),
    UpdateError,
> {
    match expected_kind(action, field) {
        None => Err(UpdateError::NotAList),
        Some(wanted) => if kind == wanted {
            Ok(())
        } else {
            Err(UpdateError::ValueMismatch)
        },
    }
}

/// A change to one field of a principal.
#[derive(Debug, Clone, PartialEq, Eq)]
pub struct PrincipalUpdate {
    action: PrincipalAction,
    field: PrincipalField,
    value: PrincipalValue,
}

/// An update as mathematics sees it.
pub struct UpdateView {
    pub action: PrincipalAction,
    pub field: PrincipalField,
    pub value: ValueView,
}

impl UpdateView {
    /// The update asks for something that can be done.
    pub open spec fn well_formed(self) -> bool {
        verdict(self.action, self.field, self.value.kind()) is Ok
    }
}

impl View for PrincipalUpdate {
    type V = UpdateView;

    closed spec fn view(&self) -> UpdateView {
        UpdateView { action: self.action, field: self.field, value: self.value@ }
    }
}

impl PrincipalUpdate {
    /// An update that replaces `field` by `value`.
    pub fn set(field: PrincipalField, value: PrincipalValue) -> (update: PrincipalUpdate)
        ensures
            update@ == (UpdateView { action: PrincipalAction::SetValue, field, value: value@ }),
    {
        PrincipalUpdate { action: PrincipalAction::SetValue, field, value }
    }

    /// An update that adds `value` to the list in `field`.
    pub fn add_item(field: PrincipalField, value: PrincipalValue) -> (update: PrincipalUpdate)
        ensures
            update@ == (UpdateView { action: PrincipalAction::AddItem, field, value: value@ }),
    {
        PrincipalUpdate { action: PrincipalAction::AddItem, field, value }
    }

    /// An update that removes `value` from the list in `field`.
    pub fn remove_item(field: PrincipalField, value: PrincipalValue) -> (update: PrincipalUpdate)
        ensures
            update@ == (UpdateView { action: PrincipalAction::RemoveItem, field, value: value@ }),
    {
        PrincipalUpdate { action: PrincipalAction::RemoveItem, field, value }
    }

    /// What the update does.
    pub fn action(&self) -> (action: PrincipalAction)
        ensures
            action == self@.action,
    {
        self.action
    }

    /// The field that the update changes.
    pub fn field(&self) -> (field: PrincipalField)
        ensures
            field == self@.field,
    {
        self.field
    }

    /// The value that the update carries.
    pub fn value(&self) -> (value: &PrincipalValue)
        ensures
            value@ == self@.value,
    {
        &self.value
    }

    /// Checks that the update can be applied at all: that its action suits
    /// its field, and that its value has the shape that the two ask for.
    /// A backend is handed only what passes.
    pub fn validate(&self) -> (r: Result<(), UpdateError>)
        ensures
            r == verdict(self@.action, self@.field, self@.value.kind()),
            r is Ok <==> self@.well_formed(),
    {
        let wanted = match self.action {
            PrincipalAction::SetValue => self.field.value_kind(),
            PrincipalAction::AddItem | PrincipalAction::RemoveItem => {
                if self.field.holds_list() {
                    ValueKind::String
                } else {
                    return Err(UpdateError::NotAList);
                }
            },
        };
        if self.value.kind() == wanted {
            Ok(())
        } else {
            Err(UpdateError::ValueMismatch)
        }
    }
}

/// A value whose shape is not the one of the field is never accepted,
/// whatever the action: of the three actions only `SetValue` takes the field's
/// own shape, and the two others take a single string on a list field.
pub proof fn lemma_mismatch_is_rejected(update: UpdateView)
    requires
        update.value.kind() != update.field.kind(),
        !(update.field.is_list() && update.action != PrincipalAction::SetValue && update.value.kind()
            == ValueKind::String),
    ensures
        !update.well_formed(),
{
}

/// Adding to, or removing from, a field that holds one value is refused,
/// whatever the value.
pub proof fn lemma_item_action_on_scalar_is_rejected(update: UpdateView)
    requires
        update.action != PrincipalAction::SetValue,
        !update.field.is_list(),
    ensures
        verdict(update.action, update.field, update.value.kind()) == Err::<(), UpdateError>(
            UpdateError::NotAList,
        ),
{
}

/// What becomes of a batch of updates: it is taken if every update in it
/// can be applied, and refused for the first one that cannot.
pub open spec fn batch_verdict(batch: Seq<UpdateView>) -> Result<(), UpdateError>
    decreases batch.len(),
{
    if batch.len() == 0 {
        Ok(())
    } else {
        match verdict(batch[0].action, batch[0].field, batch[0].value.kind()) {
            Err(error) => Err(error),
            Ok(_) => batch_verdict(batch.drop_first()),
        }
    }
}

/// A batch is taken exactly when each of its updates can be applied.
pub proof fn lemma_batch_verdict(batch: Seq<UpdateView>)
    ensures
        batch_verdict(batch) is Ok <==> forall|i: int|
            0 <= i < batch.len() ==> (#[trigger] batch[i]).well_formed(),
    decreases batch.len(),
{
    if batch.len() > 0 {
        let rest = batch.drop_first();
        lemma_batch_verdict(rest);
        if batch_verdict(batch) is Ok {
            assert forall|i: int| 0 <= i < batch.len() implies (#[trigger] batch[i]).well_formed() by {
                if i > 0 {
                    assert(batch[i] == rest[i - 1]);
                }
            }
        } else if batch[0].well_formed() {
            let i = choose|i: int| 0 <= i < rest.len() && !(#[trigger] rest[i]).well_formed();
            assert(batch[i + 1] == rest[i]);
        }
    }
}

/// Checks a batch of updates before a backend sees any of it. The batch is
/// taken only as a whole: one update that cannot be applied refuses them
/// all, with the error of the first such update.
pub fn validate_all(batch: &Vec<PrincipalUpdate>) -> (r: Result<(), UpdateError>)
    ensures
        r == batch_verdict(batch@.map_values(|update: PrincipalUpdate| update@)),
        r is Ok <==> forall|i: int| 0 <= i < batch@.len() ==> (#[trigger] batch@[i])@.well_formed(),
{
    let ghost all = batch@.map_values(|update: PrincipalUpdate| update@);
    let mut i: usize = 0;
    proof {
        assert(all.skip(0) =~= all);
    }
    while i < batch.len()
        invariant
            i <= batch.len(),
            all == batch@.map_values(|update: PrincipalUpdate| update@),
            batch_verdict(all) == batch_verdict(all.skip(i as int)),
        decreases batch.len() - i,
    {
        proof {
            assert(all.skip(i as int)[0] == batch@[i as int]@);
            assert(all.skip(i as int).drop_first() =~= all.skip(i + 1));
        }
        match batch[i].validate() {
            Ok(_) => {},
            Err(error) => {
                proof {
                    lemma_batch_verdict(all);
                    assert(!all[i as int].well_formed());
                }
                return Err(error);
            },
        }
        i = i + 1;
    }
    proof {
        assert(all.skip(i as int) =~= Seq::<UpdateView>::empty());
        lemma_batch_verdict(all);
        assert forall|k: int| 0 <= k < batch@.len() implies (#[trigger] batch@[k])@.well_formed() by {
            assert(all[k].well_formed());
        }
    }
    Ok(())
}

} // verus!
