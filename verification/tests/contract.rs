use fee_manager::contract::{execute, execute_add, execute_remove, instantiate, query, Response};
use fee_manager::msg::{AddressPriority, ExecuteMsg, InstantiateMsg, ListMemberResponse, QueryMsg};
use fee_manager::state::State;
use fee_manager::ContractError;

const USER1: &str = "USER1";
const USER2: &str = "USER2";
const ADMIN: &str = "ADMIN";

fn proper_instantiate() -> State {
    let (state, _res) = instantiate(String::from(ADMIN), InstantiateMsg {});
    state
}

fn member(addr: &str, priority: u32) -> AddressPriority {
    AddressPriority { addr: String::from(addr), priority }
}

fn list(state: &State) -> ListMemberResponse {
    query(state, QueryMsg::ListMembers {})
}

#[test]
fn add_remove() {
    let mut state = proper_instantiate();

    // Success Add
    let res = execute(
        &mut state,
        String::from(ADMIN),
        ExecuteMsg::Add { dao: String::from(USER1) },
    );
    assert!(res.is_ok());

    // Check nums of members
    let response = list(&state);
    let members = response.members;
    assert_eq!(members.len(), 1);

    // Fail with already added DAO
    let err = execute(
        &mut state,
        String::from(ADMIN),
        ExecuteMsg::Add { dao: String::from(USER1) },
    )
    .unwrap_err();
    assert_eq!(ContractError::AlreadyAdded, err);

    // Fail with removing none exist DAO
    let err = execute(
        &mut state,
        String::from(ADMIN),
        ExecuteMsg::Remove { dao: String::from(USER2) },
    )
    .unwrap_err();
    assert_eq!(ContractError::NotExist, err);

    // Fail with removing by unauthorized
    let err = execute(
        &mut state,
        String::from(USER2),
        ExecuteMsg::Remove { dao: String::from(USER1) },
    )
    .unwrap_err();
    assert_eq!(ContractError::Unauthorized, err);

    // Success with Remove
    let res = execute(
        &mut state,
        String::from(ADMIN),
        ExecuteMsg::Remove { dao: String::from(USER1) },
    );
    assert!(res.is_ok());
}

#[test]
fn instantiate_sets_owner_and_empty_list() {
    let (state, res) = instantiate(String::from(ADMIN), InstantiateMsg {});
    assert_eq!(state.owner, ADMIN);
    assert!(state.list.is_empty());
    assert_eq!(res.attributes.len(), 2);
    assert_eq!(res.attributes[0].key, "method");
    assert_eq!(res.attributes[0].value, "instantiate");
    assert_eq!(res.attributes[1].key, "owner");
    assert_eq!(res.attributes[1].value, ADMIN);
}

#[test]
fn add_duplicate_rejected() {
    // initialize with owner ADMIN, add USER1, listing shows it, a second
    // add of the same identity fails and the list stays at length 1.
    let mut state = proper_instantiate();
    let res = execute_add(&mut state, String::from(ADMIN), member(USER1, 0));
    assert!(res.is_ok());
    let members = list(&state).members;
    assert_eq!(members.len(), 1);
    assert_eq!(members[0].addr, USER1);

    let err = execute_add(&mut state, String::from(ADMIN), member(USER1, 9)).unwrap_err();
    assert_eq!(ContractError::AlreadyAdded, err);
    assert_eq!(list(&state).members.len(), 1);
}

#[test]
fn remove_missing_fails() {
    // removing USER2 from a list containing only USER1 fails with NotExist.
    let mut state = proper_instantiate();
    execute_add(&mut state, String::from(ADMIN), member(USER1, 0)).unwrap();
    let err = execute_remove(&mut state, String::from(ADMIN), String::from(USER2)).unwrap_err();
    assert_eq!(ContractError::NotExist, err);
    assert_eq!(list(&state).members.len(), 1);
}

#[test]
fn remove_by_non_owner_fails() {
    // remove_member(USER2, USER1) where owner is ADMIN fails Unauthorized
    // and the list is unchanged.
    let mut state = proper_instantiate();
    execute_add(&mut state, String::from(ADMIN), member(USER1, 3)).unwrap();
    let before = list(&state);
    let err = execute_remove(&mut state, String::from(USER2), String::from(USER1)).unwrap_err();
    assert_eq!(ContractError::Unauthorized, err);
    assert_eq!(before, list(&state));
}

#[test]
fn remove_existing_succeeds() {
    // remove_member(ADMIN, USER1) on a list containing USER1 succeeds and
    // the subsequent listing is empty.
    let mut state = proper_instantiate();
    execute_add(&mut state, String::from(ADMIN), member(USER1, 0)).unwrap();
    let res = execute_remove(&mut state, String::from(ADMIN), String::from(USER1));
    assert!(res.is_ok());
    assert_eq!(list(&state).members.len(), 0);
}

#[test]
fn list_members_is_idempotent() {
    let mut state = proper_instantiate();
    execute_add(&mut state, String::from(ADMIN), member(USER1, 1)).unwrap();
    execute_add(&mut state, String::from(ADMIN), member(USER2, 2)).unwrap();
    let first = list(&state);
    let second = list(&state);
    assert_eq!(first, second);
}

#[test]
fn no_duplicate_identities_persist() {
    let mut state = proper_instantiate();
    let calls = [
        (USER1, 1),
        (USER2, 2),
        (USER1, 3),
        ("USER3", 4),
        (USER2, 5),
    ];
    for (addr, priority) in calls {
        let _ = execute_add(&mut state, String::from(ADMIN), member(addr, priority));
    }
    let members = list(&state).members;
    assert_eq!(members.len(), 3);
    for i in 0..members.len() {
        for j in (i + 1)..members.len() {
            assert_ne!(members[i].addr, members[j].addr);
        }
    }
    assert!(state.check_wf());
}

#[test]
fn unauthorized_caller_changes_nothing() {
    let mut state = proper_instantiate();
    execute_add(&mut state, String::from(ADMIN), member(USER1, 1)).unwrap();
    let before = list(&state);

    let err = execute_add(&mut state, String::from(USER2), member("USER3", 0)).unwrap_err();
    assert_eq!(ContractError::Unauthorized, err);
    let err = execute_remove(&mut state, String::from(USER2), String::from(USER1)).unwrap_err();
    assert_eq!(ContractError::Unauthorized, err);

    assert_eq!(before, list(&state));
    assert_eq!(state.owner, ADMIN);
}

#[test]
fn add_then_remove_round_trip() {
    let mut state = proper_instantiate();
    execute_add(&mut state, String::from(ADMIN), member(USER1, 1)).unwrap();
    let before = list(&state);

    execute_add(&mut state, String::from(ADMIN), member(USER2, 7)).unwrap();
    let with_new = list(&state).members;
    assert!(with_new.iter().any(|m| m.addr == USER2 && m.priority == 7));

    execute_remove(&mut state, String::from(ADMIN), String::from(USER2)).unwrap();
    let after = list(&state);
    assert!(after.members.iter().all(|m| m.addr != USER2));
    assert_eq!(before, after);
}

#[test]
fn success_acknowledgments_name_the_method() {
    let mut state = proper_instantiate();
    let added: Response =
        execute_add(&mut state, String::from(ADMIN), member(USER1, 0)).unwrap();
    assert_eq!(added.attributes.len(), 1);
    assert_eq!(added.attributes[0].key, "method");
    assert_eq!(added.attributes[0].value, "add");

    let removed: Response =
        execute_remove(&mut state, String::from(ADMIN), String::from(USER1)).unwrap();
    assert_eq!(removed.attributes.len(), 1);
    assert_eq!(removed.attributes[0].key, "method");
    assert_eq!(removed.attributes[0].value, "remove");
}

#[test]
fn wire_add_defaults_priority_to_zero() {
    let mut state = proper_instantiate();
    execute(
        &mut state,
        String::from(ADMIN),
        ExecuteMsg::Add { dao: String::from(USER1) },
    )
    .unwrap();
    let members = list(&state).members;
    assert_eq!(members.len(), 1);
    assert_eq!(members[0].priority, 0);

    execute_add(&mut state, String::from(ADMIN), member(USER2, 42)).unwrap();
    let members = list(&state).members;
    assert_eq!(members[1].priority, 42);
}

#[test]
fn insertion_order_is_preserved() {
    let mut state = proper_instantiate();
    let names = [USER1, USER2, "USER3", "USER4"];
    for (k, name) in names.iter().enumerate() {
        execute_add(&mut state, String::from(ADMIN), member(name, k as u32)).unwrap();
    }
    execute_remove(&mut state, String::from(ADMIN), String::from(USER2)).unwrap();
    let members = list(&state).members;
    assert_eq!(members.len(), 3);
    assert_eq!(members[0].addr, USER1);
    assert_eq!(members[1].addr, "USER3");
    assert_eq!(members[2].addr, "USER4");
}

#[test]
fn check_wf_detects_duplicates() {
    let good = State {
        owner: String::from(ADMIN),
        list: vec![member(USER1, 1), member(USER2, 2)],
    };
    assert!(good.check_wf());

    let bad = State {
        owner: String::from(ADMIN),
        list: vec![member(USER1, 1), member(USER1, 2)],
    };
    assert!(!bad.check_wf());
}

#[test]
fn error_kinds_are_distinct() {
    assert_ne!(ContractError::Unauthorized, ContractError::AlreadyAdded);
    assert_ne!(ContractError::Unauthorized, ContractError::NotExist);
    assert_ne!(ContractError::AlreadyAdded, ContractError::NotExist);
    assert_eq!(ContractError::NotExist, ContractError::NotExist);
}
