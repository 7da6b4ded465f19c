use vstd::prelude::*;
use vstd::string::StringExecFns;
use crate::error::ContractError;
use crate::msg::{
    AddressPriority, ExecuteMsg, InstantiateMsg, ListMemberResponse, MemberView, QueryMsg,
    members_view,
};
use crate::state::{
    State, StateView, contains_id, lemma_filter_all_kept, lemma_filter_keeps_no_dup, no_dup_ids,
};

verus! {

/// One observability attribute: a key/value pair of strings, forwarded to
/// the hosting environment on the success path of a mutation.
#[derive(Debug)]
pub struct Attribute {
    pub key: String,
    pub value: String,
}

impl View for Attribute {
    type V = (Seq<char>, Seq<char>);

    open spec fn view(&self) -> (Seq<char>, Seq<char>) {
        (self.key@, self.value@)
    }
}

/// The mathematical image of an attribute list, in order.
pub open spec fn attrs_view(attrs: Seq<Attribute>) -> Seq<(Seq<char>, Seq<char>)> {
    attrs.map_values(|a: Attribute| a@)
}

/// Acknowledgment returned by a successful mutation: it carries only the
/// observability attributes, no other payload.
#[derive(Debug)]
pub struct Response {
    pub attributes: Vec<Attribute>,
}

impl View for Response {
    type V = Seq<(Seq<char>, Seq<char>)>;

    open spec fn view(&self) -> Seq<(Seq<char>, Seq<char>)> {
        attrs_view(self.attributes@)
    }
}

/// The predicate satisfied by the entries that a removal of `id` keeps.
pub open spec fn keeps(id: Seq<char>) -> spec_fn(MemberView) -> bool {
    |m: MemberView| m.addr != id
}

/// The state after appending member `m` to the list.
pub open spec fn with_member(s: StateView, m: MemberView) -> StateView {
    (StateView { owner: s.owner, members: s.members.push(m) })
}

/// The state after removing every entry whose identity is `id`, keeping
/// the order of the remaining entries.
pub open spec fn without_id(s: StateView, id: Seq<char>) -> StateView {
    (StateView { owner: s.owner, members: s.members.filter(keeps(id)) })
}

/// Everything `execute_add` does, as a relation between the state before
/// (`pre`) and after (`post`) the call, the caller, the candidate member
/// and the returned value: the owner check comes first, then the duplicate
/// check, and only then is the candidate appended.
pub open spec fn add_spec(
    pre: StateView,
    post: StateView,
    sender: Seq<char>,
    cand: MemberView,
    r: Result<Response, ContractError>,
) -> bool {
    if sender != pre.owner {
        r == Err::<Response, ContractError>(ContractError::Unauthorized) && post == pre
    } else if contains_id(pre.members, cand.addr) {
        r == Err::<Response, ContractError>(ContractError::AlreadyAdded) && post == pre
    } else {
        r is Ok && r->Ok_0@ == seq![("method"@, "add"@)] && post == with_member(pre, cand)
    }
}

/// Everything `execute_remove` does: the owner check comes first, then the
/// existence check, and only then are the matching entries removed.
pub open spec fn remove_spec(
    pre: StateView,
    post: StateView,
    sender: Seq<char>,
    id: Seq<char>,
    r: Result<Response, ContractError>,
) -> bool {
    if sender != pre.owner {
        r == Err::<Response, ContractError>(ContractError::Unauthorized) && post == pre
    } else if !contains_id(pre.members, id) {
        r == Err::<Response, ContractError>(ContractError::NotExist) && post == pre
    } else {
        r is Ok && r->Ok_0@ == seq![("method"@, "remove"@)] && post == without_id(pre, id)
    }
}

/// Builds the acknowledgment for a mutation: a single `method` attribute.
fn response_with_method(method: &str) -> (r: Response)
    ensures
        r@ == seq![("method"@, method@)],
{
    let mut attrs: Vec<Attribute> = Vec::new();
    attrs.push(Attribute { key: String::from_str("method"), value: String::from_str(method) });
    let r = Response { attributes: attrs };
    proof {
        assert(r@ =~= seq![("method"@, method@)]);
    }
    r
}

/// Decides whether some entry of `list` carries the identity `id`.
fn contains_member(list: &Vec<AddressPriority>, id: &String) -> (b: bool)
    ensures
        b == contains_id(members_view(list@), id@),
{
    let n = list.len();
    let mut i: usize = 0;
    while i < n
        invariant
            n == list.len(),
            i <= n,
            forall|j: int| 0 <= j < i ==> members_view(list@)[j].addr != id@,
        decreases n - i,
    {
        if list[i].addr == *id {
            assert(members_view(list@)[i as int].addr == id@);
            return true;
        }
        i += 1;
    }
    false
}

/// Creates the registry: the caller becomes the owner, for good, and the
/// member list starts empty.  Creation cannot fail; the acknowledgment
/// names the method and the chosen owner.
pub fn instantiate(sender: String, _msg: InstantiateMsg) -> (r: (State, Response))
    ensures
        r.0@ == (StateView { owner: sender@, members: Seq::<MemberView>::empty() }),
        r.0.wf(),
        r.1@ == seq![("method"@, "instantiate"@), ("owner"@, sender@)],
{
    let mut attrs: Vec<Attribute> = Vec::new();
    attrs.push(
        Attribute { key: String::from_str("method"), value: String::from_str("instantiate") },
    );
    attrs.push(Attribute { key: String::from_str("owner"), value: sender.clone() });
    let state = State { owner: sender, list: Vec::new() };
    let resp = Response { attributes: attrs };
    proof {
        assert(state@.members =~= Seq::<MemberView>::empty());
        assert(resp@ =~= seq![("method"@, "instantiate"@), ("owner"@, sender@)]);
    }
    (state, resp)
}

/// Dispatches a mutating request to the operation it names.  A member added
/// through the wire shape receives the baseline priority `0`.
pub fn execute(state: &mut State, sender: String, msg: ExecuteMsg) -> (r: Result<
    Response,
    ContractError,
>)
    requires
        old(state).wf(),
    ensures
        final(state).wf(),
        final(state)@.owner == old(state)@.owner,
        msg matches ExecuteMsg::Add { dao } ==> add_spec(
            old(state)@,
            final(state)@,
            sender@,
            (MemberView { addr: dao@, priority: 0 }),
            r,
        ),
        msg matches ExecuteMsg::Remove { dao } ==> remove_spec(
            old(state)@,
            final(state)@,
            sender@,
            dao@,
            r,
        ),
{
    match msg {
        ExecuteMsg::Add { dao } => execute_add(
            state,
            sender,
            AddressPriority { addr: dao, priority: 0 },
        ),
        ExecuteMsg::Remove { dao } => execute_remove(state, sender, dao),
    }
}

/// Adds `dao` to the member list.  Only the owner may do so; a duplicate
/// identity is rejected even when the stored priority differs.  On success
/// the candidate is appended at the end, every other entry untouched.
pub fn execute_add(state: &mut State, sender: String, dao: AddressPriority) -> (r: Result<
    Response,
    ContractError,
>)
    requires
        old(state).wf(),
    ensures
        final(state).wf(),
        final(state)@.owner == old(state)@.owner,
        add_spec(old(state)@, final(state)@, sender@, dao@, r),
{
    if !(sender == state.owner) {
        return Err(ContractError::Unauthorized);
    }
    if contains_member(&state.list, &dao.addr) {
        return Err(ContractError::AlreadyAdded);
    }
    let ghost pre = state@;
    let ghost cand = dao@;
    state.list.push(dao);
    proof {
        assert(state@.members =~= pre.members.push(cand));
        assert forall|i: int, j: int| 0 <= i < j < state@.members.len() implies state@.members[i].addr
            != state@.members[j].addr by {
            if j < pre.members.len() {
                assert(pre.members[i].addr != pre.members[j].addr);
            } else {
                assert(state@.members[j] == cand);
                assert(!contains_id(pre.members, cand.addr));
            }
        }
    }
    Ok(response_with_method("add"))
}

/// Removes every entry whose identity is `dao`.  Only the owner may do so,
/// and the owner check comes before the existence check; removing an absent
/// identity is rejected.  On success the remaining entries keep their
/// order.
pub fn execute_remove(state: &mut State, sender: String, dao: String) -> (r: Result<
    Response,
    ContractError,
>)
    requires
        old(state).wf(),
    ensures
        final(state).wf(),
        final(state)@.owner == old(state)@.owner,
        remove_spec(old(state)@, final(state)@, sender@, dao@, r),
{
    if !(sender == state.owner) {
        return Err(ContractError::Unauthorized);
    }
    if !contains_member(&state.list, &dao) {
        return Err(ContractError::NotExist);
    }
    let ghost pre = state@;
    let n = state.list.len();
    let mut kept: Vec<AddressPriority> = Vec::new();
    let mut i: usize = 0;
    proof {
        assert(members_view(kept@) =~= members_view(state.list@.take(0)).filter(keeps(dao@)));
    }
    while i < n
        invariant
            *state == *old(state),
            n == state.list.len(),
            i <= n,
            members_view(kept@) == members_view(state.list@.take(i as int)).filter(keeps(dao@)),
        decreases n - i,
    {
        let keep_it = !(state.list[i].addr == dao);
        let ghost pre_kept = members_view(kept@);
        let ghost m = state.list@[i as int]@;
        if keep_it {
            let entry = state.list[i].clone();
            kept.push(entry);
        }
        proof {
            let lseq = state.list@;
            lseq.lemma_map_take_succ(|e: AddressPriority| e@, i as int);
            members_view(lseq.take(i as int)).lemma_filter_push(m, keeps(dao@));
            if keep_it {
                assert(members_view(kept@) =~= pre_kept.push(m));
            }
            assert(members_view(kept@) == members_view(lseq.take(i as int + 1)).filter(
                keeps(dao@),
            ));
        }
        i += 1;
    }
    proof {
        assert(state.list@.take(n as int) =~= state.list@);
    }
    state.list = kept;
    proof {
        assert(state@ =~= without_id(pre, dao@));
        lemma_filter_keeps_no_dup(pre.members, keeps(dao@));
    }
    Ok(response_with_method("remove"))
}

/// Answers a read-only request.  Listing requires no authorization and has
/// no side effect: the result is the current member list, verbatim, in
/// stored insertion order.
pub fn query(state: &State, msg: QueryMsg) -> (r: ListMemberResponse)
    ensures
        r@ == state@.members,
{
    match msg {
        QueryMsg::ListMembers {} => query_list(state),
    }
}

/// Copies the current member list into a response, in order.
fn query_list(state: &State) -> (r: ListMemberResponse)
    ensures
        r@ == state@.members,
{
    let n = state.list.len();
    let mut members: Vec<AddressPriority> = Vec::new();
    let mut i: usize = 0;
    proof {
        assert(members_view(members@) =~= members_view(state.list@.take(0)));
    }
    while i < n
        invariant
            n == state.list.len(),
            i <= n,
            members_view(members@) == members_view(state.list@.take(i as int)),
        decreases n - i,
    {
        let ghost pre_members = members_view(members@);
        let entry = state.list[i].clone();
        members.push(entry);
        proof {
            state.list@.lemma_map_take_succ(|e: AddressPriority| e@, i as int);
            assert(members_view(members@) =~= pre_members.push(state.list@[i as int]@));
        }
        i += 1;
    }
    proof {
        assert(state.list@.take(n as int) =~= state.list@);
    }
    ListMemberResponse { members }
}

/// Idempotent read law: the listing is a function of the state alone, so
/// two reads of the same state, with no mutation between them, agree.
pub proof fn lemma_list_members_idempotent(
    s: State,
    r1: ListMemberResponse,
    r2: ListMemberResponse,
)
    requires
        r1@ == s@.members,
        r2@ == s@.members,
    ensures
        r1@ == r2@,
{
}

/// Authorization law for additions: a caller other than the owner is
/// rejected with `Unauthorized` and the state is unchanged.
pub proof fn lemma_unauthorized_add(
    pre: StateView,
    post: StateView,
    sender: Seq<char>,
    cand: MemberView,
    r: Result<Response, ContractError>,
)
    requires
        sender != pre.owner,
        add_spec(pre, post, sender, cand, r),
    ensures
        r == Err::<Response, ContractError>(ContractError::Unauthorized),
        post == pre,
{
}

/// Authorization law for removals: a caller other than the owner is
/// rejected with `Unauthorized` and the state is unchanged.
pub proof fn lemma_unauthorized_remove(
    pre: StateView,
    post: StateView,
    sender: Seq<char>,
    id: Seq<char>,
    r: Result<Response, ContractError>,
)
    requires
        sender != pre.owner,
        remove_spec(pre, post, sender, id, r),
    ensures
        r == Err::<Response, ContractError>(ContractError::Unauthorized),
        post == pre,
{
}

/// Round-trip law: adding a fresh member puts it in the list, and removing
/// its identity right afterwards takes it out again — indeed it restores
/// the original list exactly.
pub proof fn lemma_add_remove_round_trip(s: StateView, m: MemberView)
    requires
        no_dup_ids(s.members),
        !contains_id(s.members, m.addr),
    ensures
        with_member(s, m).members.contains(m),
        contains_id(with_member(s, m).members, m.addr),
        !contains_id(without_id(with_member(s, m), m.addr).members, m.addr),
        without_id(with_member(s, m), m.addr) == s,
{
    let t = with_member(s, m);
    assert(t.members[t.members.len() - 1] == m);
    s.members.lemma_filter_push(m, keeps(m.addr));
    assert(forall|i: int| 0 <= i < s.members.len() ==> keeps(m.addr)(#[trigger] s.members[i]));
    lemma_filter_all_kept(s.members, keeps(m.addr));
    assert(without_id(t, m.addr) =~= s);
}

} // verus!
