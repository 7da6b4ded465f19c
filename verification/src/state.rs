use vstd::prelude::*;
use crate::msg::{AddressPriority, MemberView, members_view};

verus! {

/// Mathematical image of the registry state: the owner identity and the
/// member list, both as plain values.
#[verifier::ext_equal]
pub ghost struct StateView {
    pub owner: Seq<char>,
    pub members: Seq<MemberView>,
}

/// The persisted registry state: the owner identity, fixed at creation, and
/// the member list in insertion order.
#[derive(Debug)]
pub struct State {
    pub owner: String,
    pub list: Vec<AddressPriority>,
}

/// Whether some entry of `members` carries the identity `id`.
pub open spec fn contains_id(members: Seq<MemberView>, id: Seq<char>) -> bool {
    exists|i: int| 0 <= i < members.len() && members[i].addr == id
}

/// Whether no two entries of `members` carry the same identity.
pub open spec fn no_dup_ids(members: Seq<MemberView>) -> bool {
    forall|i: int, j: int|
        0 <= i < j < members.len() ==> members[i].addr != members[j].addr
}

impl View for State {
    type V = StateView;

    open spec fn view(&self) -> StateView {
        (StateView { owner: self.owner@, members: members_view(self.list@) })
    }
}

impl State {
    /// The state invariant: at most one entry per identity.
    pub open spec fn wf(&self) -> bool {
        no_dup_ids(self@.members)
    }

    /// Decides whether the invariant holds of this state, for callers that
    /// receive a state from outside and must not assume it.
    pub fn check_wf(&self) -> (b: bool)
        ensures
            b == self.wf(),
    {
        let n = self.list.len();
        let mut i: usize = 0;
        while i < n
            invariant
                n == self.list.len(),
                i <= n,
                forall|p: int, q: int|
                    0 <= p < q < self@.members.len() && p < i ==> self@.members[p].addr
                        != self@.members[q].addr,
            decreases n - i,
        {
            let mut j: usize = i + 1;
            while j < n
                invariant
                    n == self.list.len(),
                    i < j <= n,
                    forall|q: int|
                        i < q < j ==> self@.members[i as int].addr != self@.members[q].addr,
                decreases n - j,
            {
                if self.list[i].addr == self.list[j].addr {
                    assert(self@.members[i as int].addr == self@.members[j as int].addr);
                    return false;
                }
                j += 1;
            }
            i += 1;
        }
        true
    }
}

/// Filtering a member list by any predicate keeps the no-duplicates
/// invariant: the kept entries are entries of the original list.
pub proof fn lemma_filter_keeps_no_dup(members: Seq<MemberView>, pred: spec_fn(MemberView) -> bool)
    requires
        no_dup_ids(members),
    ensures
        no_dup_ids(members.filter(pred)),
    decreases members.len(),
{
    broadcast use vstd::seq_lib::group_filter_ensures;
    broadcast use Seq::lemma_filter_contains_rev;
    broadcast use Seq::lemma_index_contains;

    reveal(Seq::filter);
    if members.len() > 0 {
        let rest = members.drop_last();
        let last = members.last();
        assert(forall|i: int| 0 <= i < rest.len() ==> rest[i] == members[i]);
        lemma_filter_keeps_no_dup(rest, pred);
        if pred(last) {
            assert(members.filter(pred) == rest.filter(pred).push(last));
            assert forall|k: int| 0 <= k < rest.filter(pred).len() implies rest.filter(pred)[k].addr
                != last.addr by {
                let e = rest.filter(pred)[k];
                assert(rest.filter(pred).contains(e));
                assert(rest.contains(e));
                let j = choose|j: int| 0 <= j < rest.len() && rest[j] == e;
                assert(members[j].addr != members[members.len() - 1].addr);
            }
        } else {
            assert(members.filter(pred) == rest.filter(pred));
        }
    }
}

/// Filtering by a predicate that every entry satisfies returns the list
/// unchanged.
pub proof fn lemma_filter_all_kept(members: Seq<MemberView>, pred: spec_fn(MemberView) -> bool)
    requires
        forall|i: int| 0 <= i < members.len() ==> pred(#[trigger] members[i]),
    ensures
        members.filter(pred) == members,
    decreases members.len(),
{
    reveal(Seq::filter);
    if members.len() > 0 {
        let rest = members.drop_last();
        assert(forall|i: int| 0 <= i < rest.len() ==> rest[i] == members[i]);
        lemma_filter_all_kept(rest, pred);
        assert(members.filter(pred) =~= rest.push(members.last()));
        assert(rest.push(members.last()) =~= members);
    }
}

} // verus!
