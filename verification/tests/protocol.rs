use std::collections::HashMap;

use sharoomies::dto::group::{Group, GroupBody, UpdateGroup};
use sharoomies::dto::user::AuthUser;
use sharoomies::error::Error;
use sharoomies::groups::{GroupListing, GroupLookup, GroupUpdate};
use sharoomies::logic::group::{GroupCreation, Join, JoinStage, MemberListing};
use sharoomies::logic::ledger;
use sharoomies::logic::ledger::BalanceLookup;
use sharoomies::protocol::{Constraint, Query, Reply, Step};
use sharoomies::transactions::{AckStatus, NewTx, PostStage, Posting, TxBody, TxType};

const G: u128 = 0x61;
const U: u128 = 0x75;
const M1: u128 = 0x31;
const M2: u128 = 0x32;

fn ran<T>(step: Step<T>) -> Query {
    match step {
        Step::Run(query) => query,
        Step::Done(_) => panic!("the unit of work is done too early"),
        Step::Abort(error) => panic!("the unit of work was given up: {:?}", error),
    }
}

fn done<T>(step: Step<T>) -> T {
    match step {
        Step::Done(result) => result,
        Step::Run(_) => panic!("the unit of work goes on"),
        Step::Abort(error) => panic!("the unit of work was given up: {:?}", error),
    }
}

fn gave_up<T>(step: Step<T>) -> Error {
    match step {
        Step::Abort(error) => error,
        Step::Run(_) => panic!("the unit of work goes on"),
        Step::Done(_) => panic!("the unit of work is done"),
    }
}

fn creation() -> (GroupCreation, Step<Group>) {
    GroupCreation::start("flat".to_string(), AuthUser { user_id: U }, ledger::Handler::new())
}

fn posting(
    amount: i64,
    tx_type: TxType,
    metadata: Option<HashMap<String, String>>,
) -> (Posting, Query) {
    let (job, step) = Posting::start(
        AuthUser { user_id: U },
        TxBody { transaction: NewTx { group_id: G, payee_id: M1, amount, tx_type, metadata } },
    );
    (job, ran(step))
}

#[test]
fn a_joining_asks_for_three_statements() {
    let (mut job, step) = Join::start(G, U, ledger::Handler::new());
    assert!(matches!(
        ran(step),
        Query::InsertMembership { user_id: U, group_id: G }
    ));
    assert!(job.stage == JoinStage::Inserting);

    let listing = ran(job.advance(Reply::Id(7)));
    assert!(matches!(listing, Query::SelectMembers { group_id: G }));
    assert!(job.stage == JoinStage::Listing { membership_id: 7 });

    let rows = ran(job.advance(Reply::Members(vec![Some(M1), Some(U), Some(M2)])));
    match rows {
        Query::InsertLedgerRows { group_id, this_users, other_users } => {
            assert_eq!(group_id, G);
            assert_eq!(this_users, vec![M1, M2, U, U]);
            assert_eq!(other_users, vec![U, U, M1, M2]);
        },
        _ => panic!("the balances of the new member are due"),
    }
    assert!(job.stage == JoinStage::Initialising { membership_id: 7 });

    assert_eq!(done(job.advance(Reply::Written)), 7);
    assert!(job.stage == JoinStage::Finished);
    assert_eq!(gave_up(job.advance(Reply::Written)), Error::StorageUnavailable);
}

#[test]
fn the_first_member_needs_no_balances() {
    let (mut job, _) = Join::start(G, U, ledger::Handler::new());
    ran(job.advance(Reply::Id(7)));
    assert_eq!(done(job.advance(Reply::Members(vec![Some(U)]))), 7);
    assert!(job.stage == JoinStage::Finished);

    let (mut job, _) = Join::start(G, U, ledger::Handler::new());
    ran(job.advance(Reply::Id(8)));
    assert_eq!(done(job.advance(Reply::Members(vec![]))), 8);
}

#[test]
fn a_joining_says_why_the_membership_was_not_added() {
    for (constraint, error) in [
        (Constraint::MembershipUser, Error::UnknownUser),
        (Constraint::MembershipGroup, Error::UnknownGroup),
        (Constraint::MembershipPair, Error::DuplicateMembership),
        (Constraint::LedgerPair, Error::StorageUnavailable),
    ] {
        let (mut job, _) = Join::start(G, U, ledger::Handler::new());
        assert_eq!(gave_up(job.advance(Reply::Violation(constraint))), error);
        assert!(job.stage == JoinStage::Finished);
    }
}

#[test]
fn a_joining_gives_up_on_a_listing_that_could_not_be_read() {
    let (mut job, _) = Join::start(G, U, ledger::Handler::new());
    ran(job.advance(Reply::Id(7)));
    assert_eq!(
        gave_up(job.advance(Reply::Members(vec![Some(M1), None]))),
        Error::StorageUnavailable
    );
    let (mut job, _) = Join::start(G, U, ledger::Handler::new());
    ran(job.advance(Reply::Id(7)));
    assert_eq!(gave_up(job.advance(Reply::Written)), Error::StorageUnavailable);
}

#[test]
fn a_joining_gives_up_where_a_balance_is_in_the_way() {
    let (mut job, _) = Join::start(G, U, ledger::Handler::new());
    ran(job.advance(Reply::Id(7)));
    ran(job.advance(Reply::Members(vec![Some(M1)])));
    assert_eq!(
        gave_up(job.advance(Reply::Violation(Constraint::LedgerPair))),
        Error::LedgerRowExists
    );
    let (mut job, _) = Join::start(G, U, ledger::Handler::new());
    ran(job.advance(Reply::Id(7)));
    ran(job.advance(Reply::Members(vec![Some(M1)])));
    assert_eq!(gave_up(job.advance(Reply::Failed)), Error::StorageUnavailable);
}

#[test]
fn a_posting_asks_for_three_statements() {
    let mut metadata = HashMap::new();
    metadata.insert("note".to_string(), "rent".to_string());
    let (mut job, first) = posting(40, TxType::Debit, Some(metadata.clone()));
    assert!(matches!(first, Query::SelectMembers { group_id: G }));
    assert!(job.stage == PostStage::Checking);

    match ran(job.advance(Reply::Members(vec![Some(M1), Some(M2), Some(U)]))) {
        Query::InsertTransaction {
            payer_id,
            payee_id,
            group_id,
            amount,
            tx_type,
            ack_status,
            metadata: kept,
        } => {
            assert_eq!((payer_id, payee_id, group_id, amount), (U, M1, G, -40));
            assert!(tx_type == TxType::Debit);
            assert!(ack_status == AckStatus::NotAck);
            assert_eq!(kept, metadata);
        },
        _ => panic!("the transaction is due"),
    }
    assert!(job.stage == PostStage::Recording { signed: -40 });

    assert!(matches!(
        ran(job.advance(Reply::Id(9))),
        Query::AdjustBalances { group_id: G, payer_id: U, payee_id: M1, amount: -40 }
    ));
    assert!(job.stage == PostStage::Adjusting { id: 9, signed: -40 });

    let posted = done(job.advance(Reply::Affected(2))).transaction;
    assert_eq!((posted.id, posted.group_id, posted.payer_id, posted.payee_id), (9, G, U, M1));
    assert_eq!(posted.amount, 40);
    assert!(posted.tx_type == TxType::Debit);
    assert!(posted.ack_status == AckStatus::NotAck);
    assert_eq!(posted.metadata, metadata);
    assert_eq!(gave_up(job.advance(Reply::Affected(2))), Error::StorageUnavailable);
}

#[test]
fn a_posting_checks_both_users_before_it_writes() {
    let (mut job, _) = posting(40, TxType::Credit, None);
    assert_eq!(gave_up(job.advance(Reply::Members(vec![Some(U), Some(M2)]))), Error::NotAMember);
    let (mut job, _) = posting(40, TxType::Credit, None);
    assert_eq!(gave_up(job.advance(Reply::Members(vec![Some(M1), Some(M2)]))), Error::NotAMember);
    let (mut job, _) = posting(40, TxType::Credit, None);
    assert_eq!(gave_up(job.advance(Reply::Members(vec![]))), Error::NotAMember);
    let (mut job, _) = posting(40, TxType::Credit, None);
    assert_eq!(
        gave_up(job.advance(Reply::Members(vec![Some(U), Some(M1), None]))),
        Error::StorageUnavailable
    );
    let (mut job, _) = posting(i64::MIN, TxType::Debit, None);
    assert_eq!(
        gave_up(job.advance(Reply::Members(vec![Some(U), Some(M1)]))),
        Error::AmountOutOfRange
    );
    let (mut job, _) = posting(i64::MIN, TxType::Debit, None);
    assert_eq!(gave_up(job.advance(Reply::Members(vec![Some(U)]))), Error::NotAMember);
}

#[test]
fn a_posting_gives_up_where_a_balance_is_missing() {
    for (reply, error) in [
        (Reply::Affected(0), Error::LedgerRowMissing),
        (Reply::Affected(1), Error::LedgerRowMissing),
        (Reply::Affected(3), Error::LedgerRowMissing),
        (Reply::OutOfRange, Error::AmountOutOfRange),
        (Reply::Failed, Error::StorageUnavailable),
        (Reply::Written, Error::StorageUnavailable),
    ] {
        let (mut job, _) = posting(40, TxType::Credit, None);
        ran(job.advance(Reply::Members(vec![Some(U), Some(M1)])));
        ran(job.advance(Reply::Id(9)));
        assert_eq!(gave_up(job.advance(reply)), error);
        assert!(job.stage == PostStage::Finished);
    }
    let (mut job, _) = posting(40, TxType::Credit, None);
    ran(job.advance(Reply::Members(vec![Some(U), Some(M1)])));
    assert_eq!(gave_up(job.advance(Reply::Failed)), Error::StorageUnavailable);
    let (mut job, _) = posting(40, TxType::Credit, None);
    ran(job.advance(Reply::Members(vec![Some(U), Some(M1)])));
    assert_eq!(gave_up(job.advance(Reply::Unencodable)), Error::InvalidMetadata);
}

#[test]
fn the_creation_of_a_group_lets_the_owner_join() {
    let (mut job, step) = creation();
    match ran(step) {
        Query::InsertGroup { name } => assert_eq!(name, "flat"),
        _ => panic!("the group is due"),
    }
    assert!(matches!(
        ran(job.advance(Reply::Id(G))),
        Query::InsertMembership { user_id: U, group_id: G }
    ));
    assert!(matches!(ran(job.advance(Reply::Id(G + 1))), Query::SelectMembers { group_id: G }));
    let group = done(job.advance(Reply::Members(vec![Some(U)])));
    assert_eq!((group.id, group.name.as_str()), (G, "flat"));
    assert_eq!(gave_up(job.advance(Reply::Written)), Error::StorageUnavailable);
}

#[test]
fn the_creation_of_a_group_fails_as_the_joining_does() {
    let (mut job, _) = creation();
    assert_eq!(
        gave_up(job.advance(Reply::Violation(Constraint::GroupName))),
        Error::GroupNameTaken
    );
    let (mut job, _) = creation();
    assert_eq!(gave_up(job.advance(Reply::Failed)), Error::StorageUnavailable);
    let (mut job, _) = creation();
    ran(job.advance(Reply::Id(G)));
    assert_eq!(
        gave_up(job.advance(Reply::Violation(Constraint::MembershipUser))),
        Error::UnknownUser
    );
    let (mut job, _) = creation();
    ran(job.advance(Reply::Id(G)));
    ran(job.advance(Reply::Id(G + 1)));
    match ran(job.advance(Reply::Members(vec![Some(M1), Some(U)]))) {
        Query::InsertLedgerRows { group_id, this_users, other_users } => {
            assert_eq!(group_id, G);
            assert_eq!(this_users, vec![M1, U]);
            assert_eq!(other_users, vec![U, M1]);
        },
        _ => panic!("the balances of the owner are due"),
    }
    let group = done(job.advance(Reply::Written));
    assert_eq!(group.id, G);
}

#[test]
fn a_listing_of_members_checks_the_viewer() {
    let (mut job, step) = MemberListing::start(G, Some(U));
    assert!(matches!(ran(step), Query::SelectMembers { group_id: G }));
    assert_eq!(done(job.advance(Reply::Members(vec![Some(M1), Some(U)]))), vec![M1, U]);
    assert_eq!(
        gave_up(job.advance(Reply::Members(vec![Some(M1), Some(U)]))),
        Error::StorageUnavailable
    );
    let (mut job, _) = MemberListing::start(G, Some(U));
    assert_eq!(gave_up(job.advance(Reply::Members(vec![Some(M1)]))), Error::Forbidden);
    let (mut job, _) = MemberListing::start(G, None);
    assert_eq!(done(job.advance(Reply::Members(vec![Some(M1)]))), vec![M1]);
    let (mut job, _) = MemberListing::start(G, None);
    assert_eq!(gave_up(job.advance(Reply::Members(vec![None]))), Error::StorageUnavailable);
    let (mut job, _) = MemberListing::start(G, None);
    assert_eq!(gave_up(job.advance(Reply::NoRow)), Error::StorageUnavailable);
}

#[test]
fn a_listing_of_groups_is_for_the_user_alone() {
    let (_, step) = GroupListing::start(AuthUser { user_id: U }, M1);
    assert_eq!(gave_up(step), Error::Forbidden);
    let (mut job, step) = GroupListing::start(AuthUser { user_id: U }, U);
    assert!(matches!(ran(step), Query::SelectGroups { user_id: U }));
    let rows = vec![
        Some(Group { id: G, name: "flat".to_string() }),
        Some(Group { id: G + 1, name: "car".to_string() }),
    ];
    let listed = done(job.advance(Reply::Groups(rows))).group;
    let listed: Vec<(u128, &str)> =
        listed.iter().map(|group| (group.id, group.name.as_str())).collect();
    assert_eq!(listed, vec![(G, "flat"), (G + 1, "car")]);
    let (mut job, _) = GroupListing::start(AuthUser { user_id: U }, U);
    let rows = vec![Some(Group { id: G, name: "flat".to_string() }), None];
    assert_eq!(gave_up(job.advance(Reply::Groups(rows))), Error::StorageUnavailable);
}

#[test]
fn a_lookup_lists_the_groups_of_the_caller_first() {
    let (_, step) = GroupLookup::start(AuthUser { user_id: U }, 0);
    assert_eq!(gave_up(step), Error::GroupIdEmpty);
    let (mut job, step) = GroupLookup::start(AuthUser { user_id: U }, G);
    assert!(matches!(ran(step), Query::SelectGroups { user_id: U }));
    let rows = vec![Some(Group { id: G, name: "flat".to_string() })];
    let naming = ran(job.advance(Reply::Groups(rows)));
    assert!(matches!(naming, Query::SelectGroupName { group_id: G }));
    let found = done(job.advance(Reply::Name("flat".to_string()))).group;
    assert_eq!((found.id, found.name.as_str()), (G, "flat"));

    let (mut job, _) = GroupLookup::start(AuthUser { user_id: U }, G);
    let rows = vec![Some(Group { id: G + 1, name: "car".to_string() })];
    assert_eq!(gave_up(job.advance(Reply::Groups(rows))), Error::Unauthorized);

    let (mut job, _) = GroupLookup::start(AuthUser { user_id: U }, G);
    ran(job.advance(Reply::Groups(vec![Some(Group { id: G, name: "flat".to_string() })])));
    assert_eq!(gave_up(job.advance(Reply::NoRow)), Error::NotFound);
}

#[test]
fn an_update_is_checked_in_order() {
    let body = |name: Option<&str>| GroupBody {
        group: UpdateGroup { name: name.map(|name| name.to_string()) },
    };
    let (_, step) = GroupUpdate::begin("", Some(G), body(Some("house")));
    assert_eq!(gave_up(step), Error::GroupIdEmpty);
    let (_, step) = GroupUpdate::begin("", None, body(None));
    assert_eq!(gave_up(step), Error::GroupIdEmpty);
    let (_, step) = GroupUpdate::begin("61", None, body(None));
    assert_eq!(gave_up(step), Error::NothingToUpdate);
    let (_, step) = GroupUpdate::begin("61", Some(G), body(None));
    assert_eq!(gave_up(step), Error::NothingToUpdate);
    let (_, step) = GroupUpdate::begin("61", None, body(Some("house")));
    assert_eq!(gave_up(step), Error::InvalidGroupId);

    let (mut job, step) = GroupUpdate::begin("61", Some(G), body(Some("house")));
    match ran(step) {
        Query::UpdateGroupName { group_id, new_name } => {
            assert_eq!(group_id, G);
            assert_eq!(new_name.as_deref(), Some("house"));
        },
        _ => panic!("the new name is due"),
    }
    let renamed = done(job.advance(Reply::Name("house".to_string()))).group;
    assert_eq!((renamed.id, renamed.name.as_str()), (G, "house"));

    for (reply, error) in [
        (Reply::Violation(Constraint::GroupName), Error::GroupNameTaken),
        (Reply::NoRow, Error::NotFound),
        (Reply::Failed, Error::StorageUnavailable),
    ] {
        let (mut job, _) = GroupUpdate::begin("61", Some(G), body(Some("house")));
        assert_eq!(gave_up(job.advance(reply)), error);
    }
}

#[test]
fn an_update_reads_the_id_from_its_text() {
    let body = GroupBody { group: UpdateGroup { name: Some("house".to_string()) } };
    let (job, step) = GroupUpdate::start("00000000-0000-0000-0000-000000000061", body);
    assert_eq!(job.group_id, G);
    assert!(matches!(ran(step), Query::UpdateGroupName { group_id: G, .. }));
    let body = GroupBody { group: UpdateGroup { name: Some("house".to_string()) } };
    let (_, step) = GroupUpdate::start("a1a2a3a4-b1b2-c1c2-d1d2-d3d4d5d6d7d8", body);
    match ran(step) {
        Query::UpdateGroupName { group_id, .. } => {
            assert_eq!(group_id, 0xa1a2a3a4b1b2c1c2d1d2d3d4d5d6d7d8)
        },
        _ => panic!("the new name is due"),
    }
    let body = GroupBody { group: UpdateGroup { name: Some("house".to_string()) } };
    let (_, step) = GroupUpdate::start("a1a2a3a4-b1b2-c1c2-d1d2-d3d4d5d6d7", body);
    assert_eq!(gave_up(step), Error::InvalidGroupId);
}

#[test]
fn a_balance_is_read_with_one_statement() {
    let (mut job, step) = BalanceLookup::start(G, U, M1);
    assert!(matches!(
        ran(step),
        Query::SelectBalance { group_id: G, this_user: U, other_user: M1 }
    ));
    assert_eq!(done(job.advance(Reply::Amount(-3))), -3);
    assert_eq!(gave_up(job.advance(Reply::Amount(-3))), Error::StorageUnavailable);
    let (mut job, _) = BalanceLookup::start(G, U, M1);
    assert_eq!(gave_up(job.advance(Reply::NoRow)), Error::NotFound);
    let (mut job, _) = BalanceLookup::start(G, U, M1);
    assert_eq!(gave_up(job.advance(Reply::Failed)), Error::StorageUnavailable);
}
