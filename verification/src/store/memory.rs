use crate::dto::group::{Group, GroupView};
use crate::laws::Call;
use crate::protocol::{Constraint, Query, Reply};
use crate::store::model::{has_row, lemma_row_at};
use crate::store::model::{lemma_members_of_push, members_of};
use crate::store::model::{pairs_distinct, zero_rows};
use crate::store::model::{LedgerEntry, Membership, State};
use crate::store::statements::{group_rows, groups_of, lemma_group_with, lemma_groups_of_push};
use crate::store::statements::{lemma_statement_keeps_valid, lemma_with_user};
use crate::transactions::{AckStatus, Transaction, TxMetadata, TxType};
use vstd::prelude::*;

verus! {

/// The relations of the ledger, held in memory. It answers one statement at
/// a time, and each statement is carried out entirely or not at all.
pub struct Store {
    users: Vec<u128>,
    groups: Vec<Group>,
    memberships: Vec<Membership>,
    ledger: Vec<LedgerEntry>,
    transactions: Vec<Transaction>,
    next_id: u128,
}

/// How many rows each relation had at some moment, and the id that came next.
pub(crate) struct Savepoint {
    pub(crate) groups: usize,
    pub(crate) memberships: usize,
    pub(crate) ledger: usize,
    pub(crate) transactions: usize,
    pub(crate) next_id: u128,
}

/// The first `n` rows of `rows`, or all of them where there are fewer.
pub(crate) open spec fn first_rows<T>(rows: Seq<T>, n: usize) -> Seq<T> {
    if n <= rows.len() {
        rows.take(n as int)
    } else {
        rows
    }
}

impl Savepoint {
    /// Whether the savepoint was taken in `state`.
    pub(crate) open spec fn marks(self, state: State) -> bool {
        &&& self.groups == state.groups.len()
        &&& self.memberships == state.memberships.len()
        &&& self.ledger == state.ledger.len()
        &&& self.transactions == state.transactions.len()
        &&& self.next_id == state.next_id
    }

    /// `state` without the rows that were added after the savepoint.
    pub(crate) open spec fn rewind(self, state: State) -> State {
        State {
            users: state.users,
            groups: first_rows(state.groups, self.groups),
            memberships: first_rows(state.memberships, self.memberships),
            ledger: first_rows(state.ledger, self.ledger),
            transactions: first_rows(state.transactions, self.transactions),
            next_id: self.next_id,
        }
    }
}

impl View for Store {
    type V = State;

    closed spec fn view(&self) -> State {
        State {
            users: self.users@,
            groups: self.groups@.map_values(|group: Group| group@),
            memberships: self.memberships@,
            ledger: self.ledger@,
            transactions: self.transactions@.map_values(|row: Transaction| row@),
            next_id: self.next_id,
        }
    }
}

impl Store {
    /// A store without rows.
    pub fn new() -> (store: Store)
        ensures
            store@ == State::empty(),
            store@.valid(),
            store@.consistent(),
    {
        Store {
            users: Vec::new(),
            groups: Vec::new(),
            memberships: Vec::new(),
            ledger: Vec::new(),
            transactions: Vec::new(),
            next_id: 1,
        }
    }

    /// Makes `user_id` known, as the identity store does when a user signs
    /// up. Returns whether the user was new.
    pub fn register_user(&mut self, user_id: u128) -> (added: bool)
        requires
            old(self)@.valid(),
        ensures
            final(self)@.valid(),
            added == !old(self)@.has_user(user_id),
            final(self)@ == old(self)@.after(Call::Register { user_id }),
            old(self)@.consistent() ==> final(self)@.consistent(),
    {
        if self.knows_user(user_id) {
            return false;
        }
        self.users.push(user_id);
        proof {
            assert(self@ =~= old(self)@.with_user(user_id));
            lemma_with_user(old(self)@, user_id);
        }
        true
    }

    fn knows_user(&self, user_id: u128) -> (known: bool)
        ensures
            known == self@.has_user(user_id),
    {
        let mut i: usize = 0;
        while i < self.users.len()
            invariant
                i <= self.users.len(),
                forall|k: int| 0 <= k < i ==> self.users@[k] != user_id,
            decreases self.users.len() - i,
        {
            if self.users[i] == user_id {
                return true;
            }
            i += 1;
        }
        false
    }

    fn find_group(&self, group_id: u128) -> (found: Option<usize>)
        ensures
            match found {
                Some(i) => i < self@.groups.len() && self@.groups[i as int].id == group_id,
                None => !self@.has_group(group_id),
            },
    {
        let mut i: usize = 0;
        while i < self.groups.len()
            invariant
                i <= self.groups.len(),
                forall|k: int| 0 <= k < i ==> (#[trigger] self@.groups[k]).id != group_id,
            decreases self.groups.len() - i,
        {
            if self.groups[i].id == group_id {
                return Some(i);
            }
            i += 1;
        }
        None
    }

    fn find_name(&self, name: &String) -> (found: Option<usize>)
        ensures
            match found {
                Some(i) => i < self@.groups.len() && self@.groups[i as int].name == name@,
                None => !self@.name_taken(name@),
            },
    {
        let mut i: usize = 0;
        while i < self.groups.len()
            invariant
                i <= self.groups.len(),
                forall|k: int| 0 <= k < i ==> (#[trigger] self@.groups[k]).name != name@,
            decreases self.groups.len() - i,
        {
            if self.groups[i].name == *name {
                return Some(i);
            }
            i += 1;
        }
        None
    }

    fn find_membership(&self, group_id: u128, user_id: u128) -> (found: Option<usize>)
        ensures
            match found {
                Some(i) => i < self@.memberships.len() && self@.memberships[i as int].joins(
                    group_id,
                    user_id,
                ),
                None => !self@.is_member(group_id, user_id),
            },
    {
        let mut i: usize = 0;
        while i < self.memberships.len()
            invariant
                i <= self.memberships.len(),
                forall|k: int| 0 <= k < i ==> !(#[trigger] self.memberships@[k]).joins(group_id, user_id),
            decreases self.memberships.len() - i,
        {
            if self.memberships[i].group_id == group_id && self.memberships[i].user_id == user_id {
                return Some(i);
            }
            i += 1;
        }
        None
    }

    fn find_row(&self, group_id: u128, this_user: u128, other_user: u128) -> (found: Option<usize>)
        ensures
            match found {
                Some(i) => i < self@.ledger.len() && self@.ledger[i as int].is_for(
                    group_id,
                    this_user,
                    other_user,
                ),
                None => !has_row(self@.ledger, group_id, this_user, other_user),
            },
    {
        let mut i: usize = 0;
        while i < self.ledger.len()
            invariant
                i <= self.ledger.len(),
                forall|k: int| 0 <= k < i ==> !(#[trigger] self.ledger@[k]).is_for(group_id, this_user, other_user),
            decreases self.ledger.len() - i,
        {
            let row = self.ledger[i];
            if row.group_id == group_id && row.this_user == this_user && row.other_user
                == other_user {
                return Some(i);
            }
            i += 1;
        }
        None
    }

    fn insert_group(&mut self, name: String) -> (reply: Reply)
        requires
            old(self)@.valid(),
        ensures
            reply == old(self)@.insert_group(name@).0,
            final(self)@ == old(self)@.insert_group(name@).1,
    {
        if self.find_name(&name).is_some() {
            return Reply::Violation(Constraint::GroupName);
        }
        if self.next_id == u128::MAX {
            return Reply::Failed;
        }
        let id = self.next_id;
        self.groups.push(Group { id, name });
        self.next_id = id + 1;
        assert(self@ =~= old(self)@.with_group(name@));
        Reply::Id(id)
    }

    fn insert_membership(&mut self, user_id: u128, group_id: u128) -> (reply: Reply)
        requires
            old(self)@.valid(),
        ensures
            reply == old(self)@.insert_membership(user_id, group_id).0,
            final(self)@ == old(self)@.insert_membership(user_id, group_id).1,
    {
        if !self.knows_user(user_id) {
            return Reply::Violation(Constraint::MembershipUser);
        }
        if self.find_group(group_id).is_none() {
            return Reply::Violation(Constraint::MembershipGroup);
        }
        if self.find_membership(group_id, user_id).is_some() {
            return Reply::Violation(Constraint::MembershipPair);
        }
        if self.next_id == u128::MAX {
            return Reply::Failed;
        }
        let id = self.next_id;
        self.memberships.push(Membership { id, group_id, user_id });
        self.next_id = id + 1;
        assert(self@ =~= old(self)@.with_membership(user_id, group_id));
        Reply::Id(id)
    }

    fn select_members(&self, group_id: u128) -> (reply: Reply)
        ensures
            self@.lists_members(group_id, reply),
    {
        let mut rows: Vec<Option<u128>> = Vec::new();
        let mut i: usize = 0;
        while i < self.memberships.len()
            invariant
                i <= self.memberships.len(),
                rows@ == members_of(self.memberships@.take(i as int), group_id).map_values(
                    |user_id: u128| Some(user_id),
                ),
            decreases self.memberships.len() - i,
        {
            proof {
                let listed = self.memberships@.take(i as int);
                assert(self.memberships@.take(i + 1) =~= listed.push(self.memberships@[i as int]));
                lemma_members_of_push(listed, self.memberships@[i as int], group_id);
            }
            if self.memberships[i].group_id == group_id {
                rows.push(Some(self.memberships[i].user_id));
                assert(rows@ =~= members_of(self.memberships@.take(i + 1), group_id).map_values(
                    |user_id: u128| Some(user_id),
                ));
            }
            i += 1;
        }
        assert(self.memberships@.take(i as int) =~= self.memberships@);
        Reply::Members(rows)
    }

    fn insert_ledger_rows(
        &mut self,
        group_id: u128,
        this_users: &Vec<u128>,
        other_users: &Vec<u128>,
    ) -> (reply: Reply)
        requires
            old(self)@.valid(),
        ensures
            reply == old(self)@.insert_ledger_rows(group_id, this_users@, other_users@).0,
            final(self)@ == old(self)@.insert_ledger_rows(group_id, this_users@, other_users@).1,
    {
        if this_users.len() != other_users.len() {
            return Reply::Failed;
        }
        let before = self.ledger.len();
        let ghost rows = zero_rows(group_id, this_users@, other_users@);
        let ghost wanted = old(self)@.ledger + rows;
        let mut i: usize = 0;
        while i < this_users.len()
            invariant
                i <= this_users.len(),
                this_users.len() == other_users.len(),
                old(self)@.valid(),
                before == old(self)@.ledger.len(),
                rows == zero_rows(group_id, this_users@, other_users@),
                wanted == old(self)@.ledger + rows,
                self.ledger@ == old(self)@.ledger + rows.take(i as int),
                pairs_distinct(self.ledger@),
                self.users == old(self).users,
                self.groups == old(self).groups,
                self.memberships == old(self).memberships,
                self.transactions == old(self).transactions,
                self.next_id == old(self).next_id,
            decreases this_users.len() - i,
        {
            let this_user = this_users[i];
            let other_user = other_users[i];
            match self.find_row(group_id, this_user, other_user) {
                Some(k) => {
                    proof {
                        assert(wanted[k as int] == self.ledger@[k as int]);
                        assert(wanted[before + i].is_for(group_id, this_user, other_user));
                    }
                    self.ledger.truncate(before);
                    return Reply::Violation(Constraint::LedgerPair);
                },
                None => {
                    self.ledger.push(LedgerEntry { group_id, this_user, other_user, amount: 0 });
                },
            }
            i += 1;
        }
        assert(rows.take(i as int) =~= rows);
        assert(self@ =~= old(self)@.with_ledger_rows(rows));
        Reply::Written
    }

    fn insert_transaction(
        &mut self,
        payer_id: u128,
        payee_id: u128,
        group_id: u128,
        amount: i64,
        tx_type: TxType,
        ack_status: AckStatus,
        metadata: TxMetadata,
    ) -> (reply: Reply)
        requires
            old(self)@.valid(),
        ensures
            ({
                let row = Transaction {
                    id: 0,
                    group_id,
                    payer_id,
                    payee_id,
                    amount,
                    tx_type,
                    ack_status,
                    metadata,
                };
                &&& reply == old(self)@.insert_transaction(row@).0
                &&& final(self)@ == old(self)@.insert_transaction(row@).1
            }),
    {
        if self.next_id == u128::MAX {
            return Reply::Failed;
        }
        let id = self.next_id;
        let ghost given = Transaction {
            id: 0,
            group_id,
            payer_id,
            payee_id,
            amount,
            tx_type,
            ack_status,
            metadata,
        };
        self.transactions.push(
            Transaction { id, group_id, payer_id, payee_id, amount, tx_type, ack_status, metadata },
        );
        self.next_id = id + 1;
        assert(self@ =~= old(self)@.with_transaction(given@));
        Reply::Id(id)
    }

    fn adjust_balances(&mut self, group_id: u128, payer_id: u128, payee_id: u128, amount: i64) -> (reply:
        Reply)
        requires
            old(self)@.valid(),
        ensures
            reply == old(self)@.adjust_balances(group_id, payer_id, payee_id, amount).0,
            final(self)@ == old(self)@.adjust_balances(group_id, payer_id, payee_id, amount).1,
    {
        let credit = self.find_row(group_id, payer_id, payee_id);
        let debit = if payer_id != payee_id {
            self.find_row(group_id, payee_id, payer_id)
        } else {
            None
        };
        match (credit, debit) {
            (Some(i), Some(j)) => {
                proof {
                    lemma_row_at(self@.ledger, i as int);
                    lemma_row_at(self@.ledger, j as int);
                }
                let credited = self.ledger[i];
                let debited = self.ledger[j];
                match (credited.amount.checked_add(amount), debited.amount.checked_sub(amount)) {
                    (Some(raised), Some(lowered)) => {
                        self.ledger.set(i, LedgerEntry { amount: raised, ..credited });
                        self.ledger.set(j, LedgerEntry { amount: lowered, ..debited });
                        assert(self@ =~= old(self)@.with_adjustment(
                            group_id,
                            payer_id,
                            payee_id,
                            amount as int,
                        ));
                        Reply::Affected(2)
                    },
                    _ => Reply::OutOfRange,
                }
            },
            (Some(_), None) => Reply::Affected(1),
            (None, Some(_)) => Reply::Affected(1),
            (None, None) => Reply::Affected(0),
        }
    }

    fn select_balance(&self, group_id: u128, this_user: u128, other_user: u128) -> (reply: Reply)
        requires
            self@.valid(),
        ensures
            reply == self@.select_balance(group_id, this_user, other_user),
    {
        match self.find_row(group_id, this_user, other_user) {
            Some(i) => {
                proof {
                    lemma_row_at(self@.ledger, i as int);
                }
                Reply::Amount(self.ledger[i].amount)
            },
            None => Reply::NoRow,
        }
    }

    fn select_groups(&self, user_id: u128) -> (reply: Reply)
        requires
            self@.valid(),
        ensures
            self@.lists_groups(user_id, reply),
    {
        let mut rows: Vec<Option<Group>> = Vec::new();
        let mut i: usize = 0;
        while i < self.memberships.len()
            invariant
                i <= self.memberships.len(),
                self@.valid(),
                group_rows(rows@) == groups_of(
                    self.memberships@.take(i as int),
                    self@.groups,
                    user_id,
                ).map_values(|group: GroupView| Some(group)),
            decreases self.memberships.len() - i,
        {
            proof {
                let listed = self.memberships@.take(i as int);
                assert(self.memberships@.take(i + 1) =~= listed.push(self.memberships@[i as int]));
                lemma_groups_of_push(listed, self.memberships@[i as int], self@.groups, user_id);
            }
            let row = self.memberships[i];
            if row.user_id == user_id {
                let ghost listed = rows@;
                assert(self@.has_group(self@.memberships[i as int].group_id));
                match self.find_group(row.group_id) {
                    Some(k) => {
                        proof {
                            lemma_group_with(self@.groups, k as int);
                        }
                        let group = Group { id: row.group_id, name: self.groups[k].name.clone() };
                        rows.push(Some(group));
                        assert(group_rows(rows@) =~= group_rows(listed).push(Some(group@)));
                    },
                    None => {
                        rows.push(None);
                    },
                }
            }
            i += 1;
        }
        assert(self.memberships@.take(i as int) =~= self.memberships@);
        Reply::Groups(rows)
    }

    fn select_group_name(&self, group_id: u128) -> (reply: Reply)
        requires
            self@.valid(),
        ensures
            self@.reads_name(group_id, reply),
    {
        match self.find_group(group_id) {
            Some(k) => {
                proof {
                    lemma_group_with(self@.groups, k as int);
                }
                Reply::Name(self.groups[k].name.clone())
            },
            None => Reply::NoRow,
        }
    }

    fn update_group_name(&mut self, group_id: u128, new_name: Option<String>) -> (reply: Reply)
        requires
            old(self)@.valid(),
        ensures
            old(self)@.updates_name(
                group_id,
                match new_name {
                    Some(name) => Some(name@),
                    None => None,
                },
                reply,
                final(self)@,
            ),
    {
        let at = match self.find_group(group_id) {
            Some(at) => at,
            None => {
                return Reply::NoRow;
            },
        };
        proof {
            lemma_group_with(self@.groups, at as int);
        }
        let name = match new_name {
            Some(name) => name,
            None => {
                return Reply::Name(self.groups[at].name.clone());
            },
        };
        match self.find_name(&name) {
            Some(other) => {
                if other != at {
                    return Reply::Violation(Constraint::GroupName);
                }
            },
            None => {},
        }
        let given = name.clone();
        self.groups.set(at, Group { id: group_id, name });
        assert(self@ =~= old(self)@.with_name(group_id, given@));
        Reply::Name(given)
    }

    /// Carries out one statement and answers it.
    pub fn execute(&mut self, query: Query) -> (reply: Reply)
        requires
            old(self)@.valid(),
        ensures
            final(self)@.valid(),
            old(self)@.answers(query, reply, final(self)@),
    {
        let ghost asked = query;
        let reply = match query {
            Query::InsertGroup { name } => self.insert_group(name),
            Query::InsertMembership { user_id, group_id } => self.insert_membership(
                user_id,
                group_id,
            ),
            Query::SelectMembers { group_id } => self.select_members(group_id),
            Query::InsertLedgerRows { group_id, this_users, other_users } => self.insert_ledger_rows(
                group_id,
                &this_users,
                &other_users,
            ),
            Query::InsertTransaction {
                payer_id,
                payee_id,
                group_id,
                amount,
                tx_type,
                ack_status,
                metadata,
            } => self.insert_transaction(
                payer_id,
                payee_id,
                group_id,
                amount,
                tx_type,
                ack_status,
                metadata,
            ),
            Query::AdjustBalances { group_id, payer_id, payee_id, amount } => self.adjust_balances(
                group_id,
                payer_id,
                payee_id,
                amount,
            ),
            Query::SelectBalance { group_id, this_user, other_user } => self.select_balance(
                group_id,
                this_user,
                other_user,
            ),
            Query::SelectGroups { user_id } => self.select_groups(user_id),
            Query::SelectGroupName { group_id } => self.select_group_name(group_id),
            Query::UpdateGroupName { group_id, new_name } => self.update_group_name(
                group_id,
                new_name,
            ),
        };
        proof {
            lemma_statement_keeps_valid(old(self)@, asked, reply, self@);
        }
        reply
    }

    /// How many transactions are kept.
    pub fn transaction_count(&self) -> (count: usize)
        ensures
            count == self@.transactions.len(),
    {
        self.transactions.len()
    }

    /// How many balances are kept.
    pub fn balance_count(&self) -> (count: usize)
        ensures
            count == self@.ledger.len(),
    {
        self.ledger.len()
    }

    /// How many memberships are kept.
    pub fn membership_count(&self) -> (count: usize)
        ensures
            count == self@.memberships.len(),
    {
        self.memberships.len()
    }

    /// The transaction at `at`, in the order in which they were posted: the
    /// row as it is kept, with the signed amount.
    pub fn transaction_at(&self, at: usize) -> (row: Option<Transaction>)
        ensures
            match row {
                Some(row) => at < self@.transactions.len() && row@ == self@.transactions[at as int],
                None => at >= self@.transactions.len(),
            },
    {
        if at < self.transactions.len() {
            let kept = &self.transactions[at];
            Some(
                Transaction {
                    id: kept.id,
                    group_id: kept.group_id,
                    payer_id: kept.payer_id,
                    payee_id: kept.payee_id,
                    amount: kept.amount,
                    tx_type: kept.tx_type,
                    ack_status: kept.ack_status,
                    metadata: kept.metadata.clone(),
                },
            )
        } else {
            None
        }
    }

    /// Remembers how far the relations have grown.
    pub(crate) fn savepoint(&self) -> (savepoint: Savepoint)
        ensures
            savepoint.marks(self@),
    {
        Savepoint {
            groups: self.groups.len(),
            memberships: self.memberships.len(),
            ledger: self.ledger.len(),
            transactions: self.transactions.len(),
            next_id: self.next_id,
        }
    }

    /// Drops the rows that were added after `savepoint`, and gives their ids
    /// back.
    pub(crate) fn rollback(&mut self, savepoint: &Savepoint)
        ensures
            final(self)@ == savepoint.rewind(old(self)@),
    {
        self.groups.truncate(savepoint.groups);
        self.memberships.truncate(savepoint.memberships);
        self.ledger.truncate(savepoint.ledger);
        self.transactions.truncate(savepoint.transactions);
        self.next_id = savepoint.next_id;
    }
}

} // verus!
