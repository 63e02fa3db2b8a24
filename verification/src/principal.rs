//! The principal record: one identity (user, group, resource, ...) as a
//! directory holds it.

use vstd::prelude::*;
use vstd::utf8::encode_utf8;

verus! {

/// Kind of a principal.
#[derive(Debug, Clone, Copy, PartialEq, Eq, Hash, Structural)]
pub enum Type {
    Individual,
    Group,
    Resource,
    Location,
    Superuser,
    List,
    Other,
}

impl Type {
    /// Ordinal under which a kind is stored.
    pub open spec fn ordinal(self) -> u8 {
        match self {
            Type::Individual => 0,
            Type::Group => 1,
            Type::Resource => 2,
            Type::Location => 3,
            Type::Superuser => 4,
            Type::List => 5,
            Type::Other => 6,
        }
    }

    /// Kind that a stored ordinal stands for. Every ordinal without a kind of
    /// its own stands for `Other`, so that records written by a later version
    /// can still be read.
    pub open spec fn of_ordinal(value: u8) -> Type {
        if value == 0 {
            Type::Individual
        } else if value == 1 {
            Type::Group
        } else if value == 2 {
            Type::Resource
        } else if value == 3 {
            Type::Location
        } else if value == 4 {
            Type::Superuser
        } else if value == 5 {
            Type::List
        } else {
            Type::Other
        }
    }

    pub fn from_u8(value: u8) -> (typ: Type)
        ensures
            typ == Type::of_ordinal(value),
            value >= 6 ==> typ == Type::Other,
    {
        match value {
            0 => Type::Individual,
            1 => Type::Group,
            2 => Type::Resource,
            3 => Type::Location,
            4 => Type::Superuser,
            5 => Type::List,
            _ => Type::Other,
        }
    }

    pub fn to_u8(self) -> (value: u8)
        ensures
            value == self.ordinal(),
    {
        match self {
            Type::Individual => 0,
            Type::Group => 1,
            Type::Resource => 2,
            Type::Location => 3,
            Type::Superuser => 4,
            Type::List => 5,
            Type::Other => 6,
        }
    }

    /// Reading back the ordinal of a kind gives that kind.
    pub proof fn lemma_ordinal_roundtrip(self)
        ensures
            Type::of_ordinal(self.ordinal()) == self,
            self.ordinal() <= 6,
    {
    }
}

/// An identity record.
#[derive(Debug, Clone, PartialEq, Eq)]
pub struct Principal {
    /// Number that the backend gave the record; zero where none persists it.
    pub id: u32,
    pub typ: Type,
    /// Storage quota in bytes; zero when none is set.
    pub quota: u32,
    /// Name by which the record is found; unique within a directory.
    pub name: String,
    /// Password hashes and application passwords.
    pub secrets: Vec<String>,
    /// Addresses of the principal, the primary one first.
    pub emails: Vec<String>,
    /// Identifiers of the groups that the principal belongs to.
    pub member_of: Vec<u32>,
    pub description: Option<String>,
}

/// The UTF-8 form of a text is short enough for its length to be written.
pub open spec fn text_fits(text: Seq<char>) -> bool {
    encode_utf8(text).len() <= u64::MAX
}

/// A list of texts is short enough for its count to be written, and so is
/// each of its items.
pub open spec fn texts_fit(list: Seq<Seq<char>>) -> bool {
    &&& list.len() <= u64::MAX
    &&& forall|i: int| 0 <= i < list.len() ==> text_fits(#[trigger] list[i])
}

/// What a principal holds, as mathematical values.
pub struct PrincipalView {
    pub id: u32,
    pub typ: Type,
    pub quota: u32,
    pub name: Seq<char>,
    pub secrets: Seq<Seq<char>>,
    pub emails: Seq<Seq<char>>,
    pub member_of: Seq<u32>,
    pub description: Option<Seq<char>>,
}

impl PrincipalView {
    /// A record is valid when it has a name and its description, if set,
    /// says something.
    pub open spec fn valid(self) -> bool {
        &&& self.name.len() > 0
        &&& self.description != Some(Seq::<char>::empty())
    }

    /// Every length and count of the record fits the 64 bits that the stored
    /// form gives it. This holds of every record that memory can hold.
    pub open spec fn storable(self) -> bool {
        &&& text_fits(self.name)
        &&& self.description matches Some(text) ==> text_fits(text)
        &&& texts_fit(self.secrets)
        &&& texts_fit(self.emails)
        &&& self.member_of.len() <= u64::MAX
    }

    /// The record with an empty description taken as no description.
    pub open spec fn normalized(self) -> PrincipalView {
        PrincipalView {
            description: if self.description == Some(Seq::<char>::empty()) {
                None
            } else {
                self.description
            },
            ..self
        }
    }
}

impl View for Principal {
    type V = PrincipalView;

    open spec fn view(&self) -> PrincipalView {
        PrincipalView {
            id: self.id,
            typ: self.typ,
            quota: self.quota,
            name: self.name@,
            secrets: self.secrets.deep_view(),
            emails: self.emails.deep_view(),
            member_of: self.member_of@,
            description: match self.description {
                Some(d) => Some(d@),
                None => None,
            },
        }
    }
}

} // verus!
