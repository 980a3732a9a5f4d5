//! The members of a group.

use vstd::prelude::*;
use vstd::string::StringExecFns;
use crate::error::ApiError;
use crate::find::{first_match, lemma_first_index_is};
use crate::text::same_text;

verus! {

/// A current member of the group.
#[derive(Clone, Debug, PartialEq, Eq)]
pub struct Member {
    pub member_id: i64,
    pub member_name: String,
}

/// The content of a member.
pub struct MemberValue {
    pub member_id: i64,
    pub member_name: Seq<char>,
}

impl View for Member {
    type V = MemberValue;

    open spec fn view(&self) -> MemberValue {
        MemberValue { member_id: self.member_id, member_name: self.member_name@ }
    }
}

/// The contents of a sequence of members.
pub open spec fn member_values(members: Seq<Member>) -> Seq<MemberValue> {
    Seq::new(members.len(), |i: int| members[i]@)
}

/// Whether a member goes by the given name.
pub open spec fn named(name: Seq<char>) -> spec_fn(MemberValue) -> bool {
    |m: MemberValue| m.member_name == name
}

/// Whether a member has the given identity.
pub open spec fn identified(member_id: i64) -> spec_fn(MemberValue) -> bool {
    |m: MemberValue| m.member_id == member_id
}

/// The identity of the member called `name`.
pub open spec fn member_id_of(members: Seq<MemberValue>, name: Seq<char>) -> Option<i64> {
    match first_match(members, named(name)) {
        Some(m) => Some(m.member_id),
        None => None,
    }
}

/// The name of the member with the given identity.
pub open spec fn member_name_of(members: Seq<MemberValue>, member_id: i64) -> Option<Seq<char>> {
    match first_match(members, identified(member_id)) {
        Some(m) => Some(m.member_name),
        None => None,
    }
}

/// Finds the identity of the member called `member_name`; a name that no
/// member of the group bears is not found.
pub fn get_member_id(members: &Vec<Member>, member_name: &str) -> (r: Result<i64, ApiError>)
    ensures
        match r {
            Ok(id) => member_id_of(member_values(members@), member_name@) == Some(id),
            Err(e) => member_id_of(member_values(members@), member_name@) is None
                && e.is_not_found("Member not found"@),
        },
{
    let ghost all = member_values(members@);
    let ghost wanted = named(member_name@);
    let mut i: usize = 0;
    while i < members.len()
        invariant
            i <= members.len(),
            all == member_values(members@),
            wanted == named(member_name@),
            forall|j: int| 0 <= j < i ==> !wanted(#[trigger] all[j]),
        decreases members.len() - i,
    {
        if same_text(members[i].member_name.as_str(), member_name) {
            proof {
                lemma_first_index_is(all, wanted, i as int);
            }
            return Ok(members[i].member_id);
        }
        i += 1;
    }
    proof {
        lemma_first_index_is(all, wanted, i as int);
    }
    Err(ApiError::NotFound(String::from_str("Member not found")))
}

/// Finds the name of the member with the given identity.
pub fn get_member_name(members: &Vec<Member>, member_id: i64) -> (r: Option<&str>)
    ensures
        match r {
            Some(name) => member_name_of(member_values(members@), member_id) == Some(name@),
            None => member_name_of(member_values(members@), member_id) is None,
        },
{
    let ghost all = member_values(members@);
    let ghost wanted = identified(member_id);
    let mut i: usize = 0;
    while i < members.len()
        invariant
            i <= members.len(),
            all == member_values(members@),
            wanted == identified(member_id),
            forall|j: int| 0 <= j < i ==> !wanted(#[trigger] all[j]),
        decreases members.len() - i,
    {
        if members[i].member_id == member_id {
            proof {
                lemma_first_index_is(all, wanted, i as int);
            }
            return Some(members[i].member_name.as_str());
        }
        i += 1;
    }
    proof {
        lemma_first_index_is(all, wanted, i as int);
    }
    None
}

} // verus!
