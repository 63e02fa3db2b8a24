//! The directory whose principals are all given in the configuration.
//! Every question is answered from memory.

use crate::principal::Principal;
use crate::text::str_eq;
use vstd::prelude::*;

verus! {

/// A directory that holds its principals itself.
#[derive(Debug, Clone, PartialEq, Eq)]
pub struct MemoryDirectory {
    pub principals: Vec<Principal>,
}

/// Place of the first principal named `name`, if there is one.
pub open spec fn position_by_name(principals: Seq<Principal>, name: Seq<char>) -> Option<int>
    decreases principals.len(),
{
    if principals.len() == 0 {
        None
    } else if principals[0].name@ == name {
        Some(0int)
    } else {
        match position_by_name(principals.drop_first(), name) {
            Some(i) => Some(i + 1),
            None => None,
        }
    }
}

/// Place of the first principal numbered `id`, if there is one.
pub open spec fn position_by_id(principals: Seq<Principal>, id: u32) -> Option<int>
    decreases principals.len(),
{
    if principals.len() == 0 {
        None
    } else if principals[0].id == id {
        Some(0int)
    } else {
        match position_by_id(principals.drop_first(), id) {
            Some(i) => Some(i + 1),
            None => None,
        }
    }
}

/// The identifiers of the principals that belong to the group `group`, in
/// the order in which the principals are held.
pub open spec fn members_of(principals: Seq<Principal>, group: u32) -> Seq<u32>
    decreases principals.len(),
{
    if principals.len() == 0 {
        Seq::<u32>::empty()
    } else {
        let rest = members_of(principals.drop_last(), group);
        if principals.last().member_of@.contains(group) {
            rest.push(principals.last().id)
        } else {
            rest
        }
    }
}

/// The first principal named `name` stands at the place that is found, and
/// no principal before it has that name; without a place no principal has
/// the name.
pub proof fn lemma_position_by_name(principals: Seq<Principal>, name: Seq<char>)
    ensures
        match position_by_name(principals, name) {
            Some(i) => 0 <= i < principals.len() && principals[i].name@ == name && forall|j: int|
                0 <= j < i ==> principals[j].name@ != name,
            None => forall|j: int| 0 <= j < principals.len() ==> principals[j].name@ != name,
        },
    decreases principals.len(),
{
    if principals.len() > 0 && principals[0].name@ != name {
        let rest = principals.drop_first();
        lemma_position_by_name(rest, name);
        match position_by_name(rest, name) {
            Some(i) => {
                assert(principals[i + 1] == rest[i]);
                assert forall|j: int| 0 <= j < i + 1 implies principals[j].name@ != name by {
                    if j > 0 {
                        assert(principals[j] == rest[j - 1]);
                    }
                }
            },
            None => {
                assert forall|j: int| 0 <= j < principals.len() implies principals[j].name@
                    != name by {
                    if j > 0 {
                        assert(principals[j] == rest[j - 1]);
                    }
                }
            },
        }
    }
}

/// A place whose principal has the name, with no such principal before it,
/// is the place that is found.
pub proof fn lemma_position_by_name_is(principals: Seq<Principal>, name: Seq<char>, i: int)
    requires
        0 <= i < principals.len(),
        principals[i].name@ == name,
        forall|j: int| 0 <= j < i ==> principals[j].name@ != name,
    ensures
        position_by_name(principals, name) == Some(i),
{
    lemma_position_by_name(principals, name);
}

/// The first principal numbered `id` stands at the place that is found;
/// without a place no principal has the number.
pub proof fn lemma_position_by_id(principals: Seq<Principal>, id: u32)
    ensures
        match position_by_id(principals, id) {
            Some(i) => 0 <= i < principals.len() && principals[i].id == id && forall|j: int|
                0 <= j < i ==> principals[j].id != id,
            None => forall|j: int| 0 <= j < principals.len() ==> principals[j].id != id,
        },
    decreases principals.len(),
{
    if principals.len() > 0 && principals[0].id != id {
        let rest = principals.drop_first();
        lemma_position_by_id(rest, id);
        match position_by_id(rest, id) {
            Some(i) => {
                assert(principals[i + 1] == rest[i]);
                assert forall|j: int| 0 <= j < i + 1 implies principals[j].id != id by {
                    if j > 0 {
                        assert(principals[j] == rest[j - 1]);
                    }
                }
            },
            None => {
                assert forall|j: int| 0 <= j < principals.len() implies principals[j].id != id by {
                    if j > 0 {
                        assert(principals[j] == rest[j - 1]);
                    }
                }
            },
        }
    }
}

impl MemoryDirectory {
    /// A directory of the given principals.
    pub fn new(principals: Vec<Principal>) -> (directory: MemoryDirectory)
        ensures
            directory.principals == principals,
    {
        MemoryDirectory { principals }
    }

    /// The principal named `name`: the first one, should several have the
    /// name.
    pub fn find_principal(&self, name: &str) -> (found: Option<&Principal>)
        ensures
            match position_by_name(self.principals@, name@) {
                Some(i) => found == Some(&self.principals@[i]),
                None => found is None,
            },
    {
        let mut i: usize = 0;
        while i < self.principals.len()
            invariant
                i <= self.principals.len(),
                forall|j: int| 0 <= j < i ==> self.principals@[j].name@ != name@,
            decreases self.principals.len() - i,
        {
            if str_eq(self.principals[i].name.as_str(), name) {
                proof {
                    lemma_position_by_name_is(self.principals@, name@, i as int);
                }
                return Some(&self.principals[i]);
            }
            i = i + 1;
        }
        proof {
            lemma_position_by_name(self.principals@, name@);
        }
        None
    }

    /// The principal numbered `id`: the first one, should several have the
    /// number.
    pub fn find_principal_by_id(&self, id: u32) -> (found: Option<&Principal>)
        ensures
            match position_by_id(self.principals@, id) {
                Some(i) => found == Some(&self.principals@[i]),
                None => found is None,
            },
    {
        let mut i: usize = 0;
        while i < self.principals.len()
            invariant
                i <= self.principals.len(),
                forall|j: int| 0 <= j < i ==> self.principals@[j].id != id,
            decreases self.principals.len() - i,
        {
            if self.principals[i].id == id {
                proof {
                    lemma_position_by_id(self.principals@, id);
                }
                return Some(&self.principals[i]);
            }
            i = i + 1;
        }
        proof {
            lemma_position_by_id(self.principals@, id);
        }
        None
    }

    /// The identifiers of the members of the group numbered `group`.
    pub fn expand_group(&self, group: u32) -> (members: Vec<u32>)
        ensures
            members@ == members_of(self.principals@, group),
    {
        let mut members: Vec<u32> = Vec::new();
        let mut i: usize = 0;
        proof {
            assert(self.principals@.take(0) =~= Seq::<Principal>::empty());
        }
        while i < self.principals.len()
            invariant
                i <= self.principals.len(),
                members@ == members_of(self.principals@.take(i as int), group),
            decreases self.principals.len() - i,
        {
            proof {
                let upto = self.principals@.take(i + 1);
                assert(upto.drop_last() =~= self.principals@.take(i as int));
                assert(upto.last() == self.principals@[i as int]);
            }
            if contains_id(&self.principals[i].member_of, group) {
                members.push(self.principals[i].id);
            }
            i = i + 1;
        }
        proof {
            assert(self.principals@.take(i as int) =~= self.principals@);
        }
        members
    }

    /// The addresses of the principal named `name`, the primary one first;
    /// none where no principal has the name.
    pub fn list_emails(&self, name: &str) -> (emails: Vec<String>)
        ensures
            match position_by_name(self.principals@, name@) {
                Some(i) => emails.deep_view() == self.principals@[i].emails.deep_view(),
                None => emails@.len() == 0,
            },
    {
        match self.find_principal(name) {
            Some(principal) => {
                let mut emails: Vec<String> = Vec::new();
                let mut i: usize = 0;
                while i < principal.emails.len()
                    invariant
                        i <= principal.emails.len(),
                        emails@.len() == i,
                        forall|j: int| 0 <= j < i ==> emails@[j]@ == principal.emails@[j]@,
                    decreases principal.emails.len() - i,
                {
                    emails.push(principal.emails[i].clone());
                    i = i + 1;
                }
                proof {
                    assert(emails.deep_view() =~= principal.emails.deep_view());
                }
                emails
            },
            None => Vec::new(),
        }
    }
}

/// Whether `id` is among `ids`.
pub fn contains_id(ids: &Vec<u32>, id: u32) -> (found: bool)
    ensures
        found == ids@.contains(id),
{
    let mut i: usize = 0;
    while i < ids.len()
        invariant
            i <= ids.len(),
            forall|j: int| 0 <= j < i ==> ids@[j] != id,
        decreases ids.len() - i,
    {
        if ids[i] == id {
            return true;
        }
        i = i + 1;
    }
    false
}

} // verus!
