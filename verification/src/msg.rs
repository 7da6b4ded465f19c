use vstd::prelude::*;

verus! {

/// One list entry: an identity (an opaque, address-like string) together
/// with an unsigned priority value.
///
/// Two entries are considered to name the same member exactly when their
/// identities agree; the priority carries no uniqueness or ordering
/// obligation.
#[derive(Debug, PartialEq)]
pub struct AddressPriority {
    pub addr: String,
    pub priority: u32,
}

/// Mathematical image of one list entry: the identity as a character
/// sequence and the priority.
#[verifier::ext_equal]
pub ghost struct MemberView {
    pub addr: Seq<char>,
    pub priority: u32,
}

impl View for AddressPriority {
    type V = MemberView;

    open spec fn view(&self) -> MemberView {
        (MemberView { addr: self.addr@, priority: self.priority })
    }
}

impl Clone for AddressPriority {
    fn clone(&self) -> (r: Self)
        ensures
            r == *self,
    {
        AddressPriority { addr: self.addr.clone(), priority: self.priority }
    }
}

/// The mathematical image of a member list: each entry replaced by its view,
/// in the same order.
pub open spec fn members_view(list: Seq<AddressPriority>) -> Seq<MemberView> {
    list.map_values(|m: AddressPriority| m@)
}

/// Request that creates the registry.  It carries no fields: the owner is
/// the identity that issued the request, supplied by the hosting
/// environment.
#[derive(Clone, Debug, PartialEq)]
pub struct InstantiateMsg {}

/// A mutating request.  The wire shape names only the identity; a member
/// added this way receives the baseline priority `0`.
#[derive(Clone, Debug, PartialEq)]
pub enum ExecuteMsg {
    Add { dao: String },
    Remove { dao: String },
}

/// A read-only request.
#[derive(Clone, Debug, PartialEq)]
pub enum QueryMsg {
    ListMembers {},
}

/// Answer to [`QueryMsg::ListMembers`]: the current member list, verbatim,
/// in stored insertion order.
#[derive(Debug, PartialEq)]
pub struct ListMemberResponse {
    pub members: Vec<AddressPriority>,
}

impl View for ListMemberResponse {
    type V = Seq<MemberView>;

    open spec fn view(&self) -> Seq<MemberView> {
        members_view(self.members@)
    }
}

} // verus!
