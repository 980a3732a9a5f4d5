//! Points that members earn, and the activities that earn them.

use vstd::prelude::*;
use crate::text::{contains_text, occurs_in};

verus! {

/// A request to give points to a member.
#[derive(Clone, Debug, PartialEq, Eq)]
pub struct AddPointsRequest {
    pub member_name: String,
    pub point_type: String,
    pub points: i32,
}

/// A request for the points of one member, or of all, of one type or of all.
#[derive(Clone, Debug, PartialEq, Eq)]
pub struct GetPointsRequest {
    pub member_name: Option<String>,
    pub point_type: Option<String>,
}

/// Whether points of the type `point_type` are asked for: every type is where
/// the request names none or names `%`, else the types that contain what it names.
pub open spec fn type_wanted(point_type: Seq<char>, asked: Option<Seq<char>>) -> bool {
    match asked {
        Some(part) => occurs_in(part, point_type) || part == "%"@,
        None => true,
    }
}

/// The type that a request names, if it names one.
pub open spec fn asked_type(request: GetPointsRequest) -> Option<Seq<char>> {
    match request.point_type {
        Some(t) => Some(t@),
        None => None,
    }
}

impl GetPointsRequest {
    /// Tells whether points of the type `point_type` are asked for.
    pub fn wants(&self, point_type: &str) -> (r: bool)
        ensures
            r == type_wanted(point_type@, asked_type(*self)),
    {
        match &self.point_type {
            Some(part) => contains_text(point_type, part.as_str()) || crate::text::same_text(
                part.as_str(),
                "%",
            ),
            None => true,
        }
    }
}

/// Whether a completed activity counts as verified: one that asks for proof
/// does only where proof was handed in.
pub fn activity_verified(requires_proof: bool, has_proof: bool) -> (r: bool)
    ensures
        r == (!requires_proof || has_proof),
{
    if requires_proof {
        has_proof
    } else {
        true
    }
}

} // verus!
