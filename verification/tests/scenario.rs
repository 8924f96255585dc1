use std::collections::HashMap;

use sharoomies::dto::group::{GroupBody, NewGroup};
use sharoomies::dto::user::AuthUser;
use sharoomies::groups::{add_user_to_group, create_group, get_users_by_group};
use sharoomies::logic::group::{GroupsHandler, Handler};
use sharoomies::logic::ledger;
use sharoomies::logic::ledger::get_balance;
use sharoomies::store::memory::Store;
use sharoomies::transactions::{create_transaction, AckStatus, NewTx, TxBody, TxType};
use sharoomies::users::is_user_in_group;

const A: u128 = 0xa;
const B: u128 = 0xb;
const C: u128 = 0xc;
const D: u128 = 0xd;

fn user(user_id: u128) -> AuthUser {
    AuthUser { user_id }
}

fn handler_with_users(users: &[u128]) -> Handler {
    let mut store = Store::new();
    for id in users {
        assert!(store.register_user(*id));
    }
    Handler::new(store, ledger::Handler::new())
}

fn group_owned_by(handler: &mut Handler, owner: u128, name: &str) -> u128 {
    let body = create_group(
        handler,
        user(owner),
        GroupBody { group: NewGroup { name: name.to_string() } },
    )
    .unwrap();
    assert_eq!(body.group.name, name);
    body.group.id
}

fn request(group_id: u128, payee_id: u128, amount: i64, tx_type: TxType) -> TxBody<NewTx> {
    TxBody { transaction: NewTx { group_id, payee_id, amount, tx_type, metadata: None } }
}

fn owed(handler: &mut Handler, group_id: u128, this_user: u128, other_user: u128) -> i64 {
    get_balance(&mut handler.db, group_id, this_user, other_user).unwrap()
}

#[test]
fn three_members_and_one_credit() {
    let mut handler = handler_with_users(&[A, B, C]);

    let g = group_owned_by(&mut handler, A, "flat");
    assert_eq!(handler.db.membership_count(), 1);
    assert_eq!(handler.db.balance_count(), 0);

    add_user_to_group(&mut handler, user(B), g).unwrap();
    assert_eq!(handler.db.balance_count(), 2);
    assert_eq!(owed(&mut handler, g, B, A), 0);
    assert_eq!(owed(&mut handler, g, A, B), 0);

    let posted = create_transaction(&mut handler.db, user(A), request(g, B, 500, TxType::Credit))
        .unwrap()
        .transaction;
    assert_eq!(posted.group_id, g);
    assert_eq!(posted.payer_id, A);
    assert_eq!(posted.payee_id, B);
    assert_eq!(posted.amount, 500);
    assert!(posted.tx_type == TxType::Credit);
    assert!(posted.ack_status == AckStatus::NotAck);
    assert!(posted.metadata.is_empty());
    assert_eq!(owed(&mut handler, g, A, B), 500);
    assert_eq!(owed(&mut handler, g, B, A), -500);

    add_user_to_group(&mut handler, user(C), g).unwrap();
    assert_eq!(handler.db.balance_count(), 6);
    assert_eq!(owed(&mut handler, g, C, A), 0);
    assert_eq!(owed(&mut handler, g, A, C), 0);
    assert_eq!(owed(&mut handler, g, C, B), 0);
    assert_eq!(owed(&mut handler, g, B, C), 0);
    assert_eq!(owed(&mut handler, g, A, B), 500);
    assert_eq!(owed(&mut handler, g, B, A), -500);
}

#[test]
fn ids_are_given_in_turn() {
    let mut handler = handler_with_users(&[A, B]);
    let g = group_owned_by(&mut handler, A, "flat");
    assert_eq!(g, 1);
    let membership = handler.add_user_to_group(
        &user(B),
        &sharoomies::dto::group::Group { id: g, name: String::new() },
    );
    assert_eq!(membership, Ok(3));
    let posted = create_transaction(&mut handler.db, user(A), request(g, B, 1, TxType::Credit))
        .unwrap()
        .transaction;
    assert_eq!(posted.id, 4);
}

#[test]
fn balances_of_every_pair_are_mirrored() {
    let mut handler = handler_with_users(&[A, B, C, D]);
    let g = group_owned_by(&mut handler, A, "flat");
    for joiner in [B, C, D] {
        add_user_to_group(&mut handler, user(joiner), g).unwrap();
    }
    let postings = [
        (A, B, 500, TxType::Credit),
        (B, C, 120, TxType::Debit),
        (C, A, -40, TxType::Credit),
        (D, B, 7, TxType::Debit),
        (A, B, 250, TxType::Credit),
    ];
    for (payer, payee, amount, tx_type) in postings {
        create_transaction(&mut handler.db, user(payer), request(g, payee, amount, tx_type))
            .unwrap();
    }
    let members = [A, B, C, D];
    for this_user in members {
        for other_user in members {
            if this_user != other_user {
                assert_eq!(
                    owed(&mut handler, g, this_user, other_user),
                    -owed(&mut handler, g, other_user, this_user)
                );
            }
        }
    }
    assert_eq!(handler.db.balance_count(), 12);
    assert_eq!(owed(&mut handler, g, A, B), 750);
    assert_eq!(owed(&mut handler, g, B, C), -120);
    assert_eq!(owed(&mut handler, g, C, A), -40);
    assert_eq!(owed(&mut handler, g, D, B), -7);
    assert_eq!(owed(&mut handler, g, C, D), 0);
}

#[test]
fn every_pair_of_members_has_both_balances() {
    let mut handler = handler_with_users(&[A, B, C]);
    let g = group_owned_by(&mut handler, A, "flat");
    let h = group_owned_by(&mut handler, B, "car");
    add_user_to_group(&mut handler, user(B), g).unwrap();
    add_user_to_group(&mut handler, user(C), g).unwrap();
    add_user_to_group(&mut handler, user(C), h).unwrap();
    for (group, members) in [(g, vec![A, B, C]), (h, vec![B, C])] {
        for this_user in &members {
            for other_user in &members {
                let found = get_balance(&mut handler.db, group, *this_user, *other_user);
                assert_eq!(found.is_ok(), this_user != other_user);
            }
        }
    }
    assert!(get_balance(&mut handler.db, h, A, B).is_err());
    assert_eq!(handler.db.balance_count(), 8);
}

#[test]
fn a_new_member_owes_nothing_and_is_owed_nothing() {
    let mut handler = handler_with_users(&[A, B, C]);
    let g = group_owned_by(&mut handler, A, "flat");
    add_user_to_group(&mut handler, user(B), g).unwrap();
    create_transaction(&mut handler.db, user(B), request(g, A, 31, TxType::Credit)).unwrap();
    add_user_to_group(&mut handler, user(C), g).unwrap();
    for member in [A, B] {
        assert_eq!(owed(&mut handler, g, C, member), 0);
        assert_eq!(owed(&mut handler, g, member, C), 0);
    }
    assert_eq!(owed(&mut handler, g, B, A), 31);
}

#[test]
fn a_credit_adds_its_amount() {
    let mut handler = handler_with_users(&[A, B]);
    let g = group_owned_by(&mut handler, A, "flat");
    add_user_to_group(&mut handler, user(B), g).unwrap();
    create_transaction(&mut handler.db, user(A), request(g, B, 500, TxType::Credit)).unwrap();
    let before = (owed(&mut handler, g, A, B), owed(&mut handler, g, B, A));
    create_transaction(&mut handler.db, user(A), request(g, B, 125, TxType::Credit)).unwrap();
    assert_eq!(owed(&mut handler, g, A, B), before.0 + 125);
    assert_eq!(owed(&mut handler, g, B, A), before.1 - 125);
    assert_eq!(owed(&mut handler, g, A, B), 625);
}

#[test]
fn a_debit_is_a_credit_of_the_negated_amount() {
    let mut debited = handler_with_users(&[A, B]);
    let mut credited = handler_with_users(&[A, B]);
    for handler in [&mut debited, &mut credited] {
        let g = group_owned_by(handler, A, "flat");
        add_user_to_group(handler, user(B), g).unwrap();
    }
    let debit = create_transaction(&mut debited.db, user(A), request(1, B, 80, TxType::Debit))
        .unwrap()
        .transaction;
    let credit = create_transaction(&mut credited.db, user(A), request(1, B, -80, TxType::Credit))
        .unwrap()
        .transaction;
    assert_eq!(debit.amount, 80);
    assert_eq!(credit.amount, -80);
    for (this_user, other_user, amount) in [(A, B, -80), (B, A, 80)] {
        assert_eq!(owed(&mut debited, 1, this_user, other_user), amount);
        assert_eq!(owed(&mut credited, 1, this_user, other_user), amount);
    }
}

#[test]
fn the_row_that_is_kept_holds_the_signed_amount() {
    let mut handler = handler_with_users(&[A, B]);
    let g = group_owned_by(&mut handler, A, "flat");
    add_user_to_group(&mut handler, user(B), g).unwrap();
    let mut metadata = HashMap::new();
    metadata.insert("note".to_string(), "rent".to_string());
    let posted = create_transaction(
        &mut handler.db,
        user(A),
        TxBody {
            transaction: NewTx {
                group_id: g,
                payee_id: B,
                amount: 80,
                tx_type: TxType::Debit,
                metadata: Some(metadata.clone()),
            },
        },
    )
    .unwrap()
    .transaction;
    assert_eq!(posted.amount, 80);
    assert!(posted.tx_type == TxType::Debit);
    assert_eq!(posted.metadata, metadata);
    assert_eq!(handler.db.transaction_count(), 1);
    let kept = handler.db.transaction_at(0).unwrap();
    assert_eq!(kept.id, posted.id);
    assert_eq!(kept.amount, -80);
    assert!(kept.tx_type == TxType::Debit);
    assert!(kept.ack_status == AckStatus::NotAck);
    assert_eq!(kept.metadata, metadata);
    assert_eq!((kept.group_id, kept.payer_id, kept.payee_id), (g, A, B));
    assert!(handler.db.transaction_at(1).is_none());
}

#[test]
fn members_are_listed_in_the_order_in_which_they_joined() {
    let mut handler = handler_with_users(&[A, B, C]);
    let g = group_owned_by(&mut handler, C, "flat");
    add_user_to_group(&mut handler, user(A), g).unwrap();
    add_user_to_group(&mut handler, user(B), g).unwrap();
    assert_eq!(handler.get_users_by_group(&g), Ok(vec![C, A, B]));
    assert_eq!(get_users_by_group(&mut handler.db, user(A), g).unwrap().user, vec![C, A, B]);
    assert_eq!(is_user_in_group(&mut handler.db, B, g), Ok(true));
    assert_eq!(is_user_in_group(&mut handler.db, D, g), Ok(false));
    assert_eq!(is_user_in_group(&mut handler.db, B, g + 1), Ok(false));
    assert_eq!(handler.get_users_by_group(&(g + 1)), Ok(vec![]));
}

#[test]
fn groups_keep_their_balances_apart() {
    let mut handler = handler_with_users(&[A, B]);
    let g = group_owned_by(&mut handler, A, "flat");
    let h = group_owned_by(&mut handler, A, "car");
    add_user_to_group(&mut handler, user(B), g).unwrap();
    add_user_to_group(&mut handler, user(B), h).unwrap();
    create_transaction(&mut handler.db, user(A), request(g, B, 10, TxType::Credit)).unwrap();
    create_transaction(&mut handler.db, user(B), request(h, A, 3, TxType::Credit)).unwrap();
    assert_eq!(owed(&mut handler, g, A, B), 10);
    assert_eq!(owed(&mut handler, h, A, B), -3);
}
