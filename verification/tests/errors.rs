use sharoomies::dto::group::{Group, GroupBody, NewGroup, UpdateGroup};
use sharoomies::dto::user::AuthUser;
use sharoomies::error::Error;
use sharoomies::groups::{
    add_user_to_group, create_group, find_group_by_id, get_groups_by_user, get_users_by_group,
    update_group,
};
use sharoomies::logic::group::{GroupsHandler, Handler, Join};
use sharoomies::logic::ledger;
use sharoomies::logic::ledger::get_balance;
use sharoomies::protocol::{Constraint, Query, Reply, Step};
use sharoomies::store::memory::Store;
use sharoomies::transactions::{create_transaction, NewTx, TxBody, TxType};
use sharoomies::hasher::PasswordCheck;
use sharoomies::users::{encode_profile_image, password_verdict, verify_password};

const A: u128 = 0xa;
const B: u128 = 0xb;
const C: u128 = 0xc;

fn user(user_id: u128) -> AuthUser {
    AuthUser { user_id }
}

fn flat_of(members: &[u128]) -> (Handler, u128) {
    let mut store = Store::new();
    for id in [A, B, C] {
        store.register_user(id);
    }
    let mut handler = Handler::new(store, ledger::Handler::new());
    let g = handler.create_group("flat".to_string(), user(members[0])).unwrap().id;
    for id in &members[1..] {
        add_user_to_group(&mut handler, user(*id), g).unwrap();
    }
    (handler, g)
}

fn request(group_id: u128, payee_id: u128, amount: i64, tx_type: TxType) -> TxBody<NewTx> {
    TxBody { transaction: NewTx { group_id, payee_id, amount, tx_type, metadata: None } }
}

fn refused(handler: &mut Handler, payer: u128, req: TxBody<NewTx>) -> Error {
    let counts = (handler.db.transaction_count(), handler.db.balance_count());
    let error = match create_transaction(&mut handler.db, user(payer), req) {
        Ok(_) => panic!("the transaction should have been refused"),
        Err(error) => error,
    };
    assert_eq!((handler.db.transaction_count(), handler.db.balance_count()), counts);
    error
}

fn rename(name: &str) -> GroupBody<UpdateGroup> {
    GroupBody { group: UpdateGroup { name: Some(name.to_string()) } }
}

const FIRST_ID: &str = "00000000-0000-0000-0000-000000000001";

#[test]
fn a_user_that_nobody_knows_cannot_join() {
    let (mut handler, g) = flat_of(&[A]);
    assert_eq!(add_user_to_group(&mut handler, user(0xdead), g), Err(Error::UnknownUser));
    assert_eq!(add_user_to_group(&mut handler, user(0xdead), g + 7), Err(Error::UnknownUser));
    assert_eq!(handler.db.membership_count(), 1);
}

#[test]
fn nobody_joins_a_group_that_is_not_there() {
    let (mut handler, g) = flat_of(&[A]);
    assert_eq!(add_user_to_group(&mut handler, user(B), g + 7), Err(Error::UnknownGroup));
    assert_eq!(handler.db.membership_count(), 1);
}

#[test]
fn nobody_joins_twice() {
    let (mut handler, g) = flat_of(&[A, B]);
    assert_eq!(add_user_to_group(&mut handler, user(B), g), Err(Error::DuplicateMembership));
    assert_eq!(add_user_to_group(&mut handler, user(A), g), Err(Error::DuplicateMembership));
    assert_eq!(handler.db.membership_count(), 2);
    assert_eq!(handler.db.balance_count(), 2);
    assert!(Error::DuplicateMembership.is_conflict());
}

#[test]
fn a_payee_outside_the_group_leaves_no_trace() {
    let (mut handler, g) = flat_of(&[A, B]);
    create_transaction(&mut handler.db, user(A), request(g, B, 5, TxType::Credit)).unwrap();
    assert_eq!(refused(&mut handler, A, request(g, C, 9, TxType::Credit)), Error::NotAMember);
    assert_eq!(handler.db.transaction_count(), 1);
    assert_eq!(get_balance(&mut handler.db, g, A, B), Ok(5));
    assert_eq!(get_balance(&mut handler.db, g, B, A), Ok(-5));
    assert_eq!(get_balance(&mut handler.db, g, A, C), Err(Error::NotFound));
}

#[test]
fn a_payer_outside_the_group_leaves_no_trace() {
    let (mut handler, g) = flat_of(&[A, B]);
    assert_eq!(refused(&mut handler, C, request(g, A, 9, TxType::Debit)), Error::NotAMember);
    assert_eq!(refused(&mut handler, A, request(g + 1, B, 9, TxType::Debit)), Error::NotAMember);
    assert_eq!(get_balance(&mut handler.db, g, A, B), Ok(0));
}

#[test]
fn nobody_has_a_balance_with_themselves() {
    let (mut handler, g) = flat_of(&[A, B]);
    assert_eq!(
        refused(&mut handler, A, request(g, A, 9, TxType::Credit)),
        Error::LedgerRowMissing
    );
    assert!(Error::LedgerRowMissing.is_integrity_trip());
}

#[test]
fn a_member_without_balances_cannot_be_paid() {
    let (mut handler, g) = flat_of(&[A, B]);
    let written = handler.db.execute(Query::InsertMembership { user_id: C, group_id: g });
    assert!(matches!(written, Reply::Id(_)));
    assert_eq!(
        refused(&mut handler, A, request(g, C, 9, TxType::Credit)),
        Error::LedgerRowMissing
    );
    assert_eq!(get_balance(&mut handler.db, g, A, B), Ok(0));
}

#[test]
fn a_balance_that_is_in_the_way_stops_the_joining() {
    let (mut handler, g) = flat_of(&[A, B]);
    let written = handler.db.execute(Query::InsertLedgerRows {
        group_id: g,
        this_users: vec![C],
        other_users: vec![B],
    });
    assert!(matches!(written, Reply::Written));
    assert_eq!(add_user_to_group(&mut handler, user(C), g), Err(Error::LedgerRowExists));
    assert_eq!(handler.db.membership_count(), 2);
    assert_eq!(handler.db.balance_count(), 3);
    assert_eq!(handler.get_users_by_group(&g), Ok(vec![A, B]));
    assert!(Error::LedgerRowExists.is_integrity_trip());
}

#[test]
fn the_least_amount_cannot_be_debited() {
    let (mut handler, g) = flat_of(&[A, B]);
    assert_eq!(
        refused(&mut handler, A, request(g, B, i64::MIN, TxType::Debit)),
        Error::AmountOutOfRange
    );
    create_transaction(&mut handler.db, user(A), request(g, B, i64::MAX, TxType::Debit)).unwrap();
    assert_eq!(get_balance(&mut handler.db, g, A, B), Ok(-i64::MAX));
    assert_eq!(get_balance(&mut handler.db, g, B, A), Ok(i64::MAX));
}

#[test]
fn a_balance_does_not_run_over() {
    let (mut handler, g) = flat_of(&[A, B]);
    create_transaction(&mut handler.db, user(A), request(g, B, i64::MAX, TxType::Credit)).unwrap();
    assert_eq!(
        refused(&mut handler, A, request(g, B, 1, TxType::Credit)),
        Error::AmountOutOfRange
    );
    assert_eq!(get_balance(&mut handler.db, g, A, B), Ok(i64::MAX));
    assert_eq!(get_balance(&mut handler.db, g, B, A), Ok(-i64::MAX));
    create_transaction(&mut handler.db, user(B), request(g, A, 1, TxType::Credit)).unwrap();
    assert_eq!(get_balance(&mut handler.db, g, A, B), Ok(i64::MAX - 1));
    create_transaction(&mut handler.db, user(A), request(g, B, i64::MIN, TxType::Credit)).unwrap();
    assert_eq!(get_balance(&mut handler.db, g, A, B), Ok(-2));
    assert_eq!(
        refused(&mut handler, A, request(g, B, i64::MIN, TxType::Credit)),
        Error::AmountOutOfRange
    );
}

#[test]
fn the_mirrored_balance_does_not_run_over_either() {
    let (mut handler, g) = flat_of(&[A, B]);
    create_transaction(&mut handler.db, user(A), request(g, B, i64::MIN + 1, TxType::Credit))
        .unwrap();
    assert_eq!(get_balance(&mut handler.db, g, B, A), Ok(i64::MAX));
    assert_eq!(
        refused(&mut handler, A, request(g, B, -1, TxType::Credit)),
        Error::AmountOutOfRange
    );
    assert_eq!(get_balance(&mut handler.db, g, A, B), Ok(i64::MIN + 1));
    assert_eq!(get_balance(&mut handler.db, g, B, A), Ok(i64::MAX));
}

#[test]
fn no_two_groups_have_the_same_name() {
    let (mut handler, g) = flat_of(&[A]);
    let again = create_group(
        &mut handler,
        user(B),
        GroupBody { group: NewGroup { name: "flat".to_string() } },
    );
    assert!(matches!(again, Err(Error::GroupNameTaken)));
    assert!(Error::GroupNameTaken.is_conflict());
    assert_eq!(handler.db.membership_count(), 1);
    let other = handler.create_group("car".to_string(), user(B)).unwrap();
    assert_eq!(other.id, g + 2);
    let renamed = update_group(&mut handler.db, FIRST_ID, rename("car"));
    assert!(matches!(renamed, Err(Error::GroupNameTaken)));
}

#[test]
fn a_group_without_a_known_owner_is_not_created() {
    let (mut handler, _) = flat_of(&[A]);
    let orphan = handler.create_group("car".to_string(), user(0xdead));
    assert!(matches!(orphan, Err(Error::UnknownUser)));
    let owned = handler.create_group("car".to_string(), user(B)).unwrap();
    assert_eq!(owned.id, 3);
    assert_eq!(owned.name, "car");
    assert_eq!(handler.get_users_by_group(&3), Ok(vec![B]));
}

#[test]
fn only_members_see_the_members() {
    let (mut handler, g) = flat_of(&[A, B]);
    assert!(matches!(get_users_by_group(&mut handler.db, user(C), g), Err(Error::Forbidden)));
    assert_eq!(get_users_by_group(&mut handler.db, user(B), g).unwrap().user, vec![A, B]);
}

#[test]
fn only_the_user_sees_the_groups_of_the_user() {
    let (mut handler, g) = flat_of(&[A, B]);
    let h = handler.create_group("car".to_string(), user(B)).unwrap().id;
    assert!(matches!(get_groups_by_user(&mut handler.db, user(A), B), Err(Error::Forbidden)));
    let seen = get_groups_by_user(&mut handler.db, user(B), B).unwrap().group;
    let seen: Vec<(u128, &str)> =
        seen.iter().map(|group| (group.id, group.name.as_str())).collect();
    assert_eq!(seen, vec![(g, "flat"), (h, "car")]);
    assert!(get_groups_by_user(&mut handler.db, user(C), C).unwrap().group.is_empty());
}

#[test]
fn only_members_look_a_group_up() {
    let (mut handler, g) = flat_of(&[A, B]);
    assert!(matches!(find_group_by_id(&mut handler.db, user(C), g), Err(Error::Unauthorized)));
    assert!(matches!(find_group_by_id(&mut handler.db, user(A), g + 9), Err(Error::Unauthorized)));
    assert!(matches!(find_group_by_id(&mut handler.db, user(A), 0), Err(Error::GroupIdEmpty)));
    let found = find_group_by_id(&mut handler.db, user(B), g).unwrap().group;
    assert_eq!((found.id, found.name.as_str()), (g, "flat"));
}

#[test]
fn a_balance_that_is_not_there_is_not_found() {
    let (mut handler, g) = flat_of(&[A, B]);
    assert_eq!(get_balance(&mut handler.db, g, A, C), Err(Error::NotFound));
    assert_eq!(get_balance(&mut handler.db, g, A, A), Err(Error::NotFound));
    assert_eq!(get_balance(&mut handler.db, g + 1, A, B), Err(Error::NotFound));
}

#[test]
fn a_group_is_renamed_by_the_text_of_its_id() {
    let (mut handler, g) = flat_of(&[A, B]);
    assert_eq!(g, 1);
    let renamed = update_group(&mut handler.db, FIRST_ID, rename("house")).unwrap().group;
    assert_eq!((renamed.id, renamed.name.as_str()), (1, "house"));
    let found = find_group_by_id(&mut handler.db, user(A), g).unwrap().group;
    assert_eq!(found.name, "house");
    let same = update_group(&mut handler.db, "00000000000000000000000000000001", rename("house"))
        .unwrap()
        .group;
    assert_eq!((same.id, same.name.as_str()), (1, "house"));
    handler.create_group("flat".to_string(), user(A)).unwrap();
}

#[test]
fn a_request_to_rename_is_checked_before_the_store_is_asked() {
    let (mut handler, _) = flat_of(&[A]);
    assert!(matches!(update_group(&mut handler.db, "", rename("x")), Err(Error::GroupIdEmpty)));
    let nothing = GroupBody { group: UpdateGroup::default() };
    assert!(nothing.group.is_empty());
    assert!(matches!(
        update_group(&mut handler.db, FIRST_ID, nothing),
        Err(Error::NothingToUpdate)
    ));
    assert!(matches!(
        update_group(&mut handler.db, "", GroupBody { group: UpdateGroup { name: None } }),
        Err(Error::GroupIdEmpty)
    ));
    assert!(matches!(
        update_group(&mut handler.db, "not an id", rename("x")),
        Err(Error::InvalidGroupId)
    ));
    assert!(matches!(update_group(&mut handler.db, "1", rename("x")), Err(Error::InvalidGroupId)));
    assert!(matches!(
        update_group(&mut handler.db, "00000000-0000-0000-0000-0000000000ff", rename("x")),
        Err(Error::NotFound)
    ));
    let found = find_group_by_id(&mut handler.db, user(A), 1).unwrap().group;
    assert_eq!(found.name, "flat");
}

#[test]
fn a_store_that_cannot_answer_is_unavailable() {
    let (mut job, _) = Join::start(1, A, ledger::Handler::new());
    assert!(matches!(job.advance(Reply::Failed), Step::Abort(Error::StorageUnavailable)));
    let (mut job, _) = Join::start(1, A, ledger::Handler::new());
    assert!(matches!(
        job.advance(Reply::Violation(Constraint::GroupName)),
        Step::Abort(Error::StorageUnavailable)
    ));
    assert_eq!(Error::StorageUnavailable.status(), 503);
}

#[test]
fn what_fails_outside_the_ledger_is_internal() {
    assert_eq!(encode_profile_image(404, &b"gone".to_vec()), Err(Error::Internal));
    assert_eq!(encode_profile_image(199, &vec![]), Err(Error::Internal));
    assert_eq!(encode_profile_image(300, &vec![]), Err(Error::Internal));
    assert_eq!(password_verdict(PasswordCheck::Failed), Err(Error::Internal));
    assert_eq!(verify_password("secret", "not a hash"), Err(Error::Internal));
    assert_eq!(verify_password("secret", ""), Err(Error::Internal));
    assert_eq!(password_verdict(PasswordCheck::Rejected), Err(Error::Unauthorized));
    assert_eq!(password_verdict(PasswordCheck::Accepted), Ok(()));
}

#[test]
fn the_group_of_a_handler_call_is_named_by_its_id() {
    let (mut handler, g) = flat_of(&[A]);
    let group = Group { id: g, name: "another name".to_string() };
    assert_eq!(handler.add_user_to_group(&user(B), &group), Ok(3));
    assert_eq!(handler.get_users_by_group(&g), Ok(vec![A, B]));
}
