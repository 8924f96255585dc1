use crate::dto::group::{Group, GroupView};
use crate::protocol::{Constraint, Query, Reply};
use crate::store::model::{has_row, lemma_row_at, lemma_same_tables, pairs_distinct, row_at};
use crate::store::model::zero_rows;
use crate::store::model::{LedgerEntry, Membership, State};
use crate::transactions::TransactionView;
use vstd::prelude::*;

verus! {

/// How many of the two mirrored balances of a pair are in `rows`.
pub open spec fn mirrored_rows(
    rows: Seq<LedgerEntry>,
    group_id: u128,
    payer_id: u128,
    payee_id: u128,
) -> nat {
    if has_row(rows, group_id, payer_id, payee_id) {
        if payer_id != payee_id && has_row(rows, group_id, payee_id, payer_id) {
            2
        } else {
            1
        }
    } else {
        if payer_id != payee_id && has_row(rows, group_id, payee_id, payer_id) {
            1
        } else {
            0
        }
    }
}

/// `rows` with the amount of the row at `at` changed by `by`.
pub open spec fn with_amount(rows: Seq<LedgerEntry>, at: int, by: int) -> Seq<LedgerEntry> {
    rows.update(
        at,
        LedgerEntry {
            group_id: rows[at].group_id,
            this_user: rows[at].this_user,
            other_user: rows[at].other_user,
            amount: (rows[at].amount + by) as i64,
        },
    )
}

/// The groups that `user_id` belongs to, in the order in which the user
/// joined them.
pub open spec fn groups_of(
    memberships: Seq<Membership>,
    groups: Seq<GroupView>,
    user_id: u128,
) -> Seq<GroupView> {
    memberships.filter(|row: Membership| row.user_id == user_id).map_values(
        |row: Membership| group_with(groups, row.group_id),
    )
}

/// One more membership adds its group to the groups of its user, and leaves
/// the groups of every other user as they were.
pub proof fn lemma_groups_of_push(
    memberships: Seq<Membership>,
    row: Membership,
    groups: Seq<GroupView>,
    user_id: u128,
)
    ensures
        groups_of(memberships.push(row), groups, user_id) == if row.user_id == user_id {
            groups_of(memberships, groups, user_id).push(group_with(groups, row.group_id))
        } else {
            groups_of(memberships, groups, user_id)
        },
{
    reveal_with_fuel(Seq::filter, 2);
    assert(memberships.push(row).drop_last() =~= memberships);
    if row.user_id == user_id {
        assert(groups_of(memberships.push(row), groups, user_id) =~= groups_of(
            memberships,
            groups,
            user_id,
        ).push(group_with(groups, row.group_id)));
    }
}

/// What the rows of a list of groups are in contracts.
pub open spec fn group_rows(rows: Seq<Option<Group>>) -> Seq<Option<GroupView>> {
    rows.map_values(
        |row: Option<Group>|
            match row {
                Some(group) => Some(group@),
                None => None,
            },
    )
}

/// The row of `group_id` in `groups`, if it is there.
pub open spec fn group_with(groups: Seq<GroupView>, group_id: u128) -> GroupView {
    groups[choose|i: int| 0 <= i < groups.len() && (#[trigger] groups[i]).id == group_id]
}

/// Where no two groups have the same id, the row of a group's id is that group.
pub proof fn lemma_group_with(groups: Seq<GroupView>, at: int)
    requires
        0 <= at < groups.len(),
        forall|i: int, j: int|
            #![trigger groups[i], groups[j]]
            0 <= i < j < groups.len() ==> groups[i].id != groups[j].id,
    ensures
        (choose|i: int| 0 <= i < groups.len() && (#[trigger] groups[i]).id == groups[at].id) == at,
        group_with(groups, groups[at].id) == groups[at],
{
}

impl State {
    /// What the store holds before anything was written.
    pub open spec fn empty() -> State {
        State {
            users: Seq::empty(),
            groups: Seq::empty(),
            memberships: Seq::empty(),
            ledger: Seq::empty(),
            transactions: Seq::empty(),
            next_id: 1,
        }
    }

    /// The state with one more user.
    pub open spec fn with_user(self, user_id: u128) -> State {
        State { users: self.users.push(user_id), ..self }
    }

    /// The state with the next id given to a new group of this name.
    pub open spec fn with_group(self, name: Seq<char>) -> State {
        State {
            groups: self.groups.push(GroupView { id: self.next_id, name }),
            next_id: (self.next_id + 1) as u128,
            ..self
        }
    }

    /// The state with the next id given to a new membership.
    pub open spec fn with_membership(self, user_id: u128, group_id: u128) -> State {
        State {
            memberships: self.memberships.push(
                Membership { id: self.next_id, group_id, user_id },
            ),
            next_id: (self.next_id + 1) as u128,
            ..self
        }
    }

    /// The state with these balances added.
    pub open spec fn with_ledger_rows(self, rows: Seq<LedgerEntry>) -> State {
        State { ledger: self.ledger + rows, ..self }
    }

    /// The state with the next id given to a new transaction.
    pub open spec fn with_transaction(self, row: TransactionView) -> State {
        State {
            transactions: self.transactions.push(
                TransactionView { id: self.next_id, ..row },
            ),
            next_id: (self.next_id + 1) as u128,
            ..self
        }
    }

    /// The state with the balance of `payer_id` against `payee_id` raised by
    /// `amount` and the mirrored balance lowered by as much.
    pub open spec fn with_adjustment(
        self,
        group_id: u128,
        payer_id: u128,
        payee_id: u128,
        amount: int,
    ) -> State {
        let credited = with_amount(
            self.ledger,
            row_at(self.ledger, group_id, payer_id, payee_id),
            amount,
        );
        State {
            ledger: with_amount(credited, row_at(self.ledger, group_id, payee_id, payer_id), -amount),
            ..self
        }
    }

    /// The state with `group_id` renamed.
    pub open spec fn with_name(self, group_id: u128, name: Seq<char>) -> State {
        let at = choose|i: int| 0 <= i < self.groups.len() && (#[trigger] self.groups[i]).id == group_id;
        State { groups: self.groups.update(at, GroupView { id: group_id, name }), ..self }
    }

    /// The answer to `InsertGroup`, and the state it leaves.
    pub open spec fn insert_group(self, name: Seq<char>) -> (Reply, State) {
        if self.name_taken(name) {
            (Reply::Violation(Constraint::GroupName), self)
        } else if self.next_id == u128::MAX {
            (Reply::Failed, self)
        } else {
            (Reply::Id(self.next_id), self.with_group(name))
        }
    }

    /// The answer to `InsertMembership`, and the state it leaves.
    pub open spec fn insert_membership(self, user_id: u128, group_id: u128) -> (Reply, State) {
        if !self.has_user(user_id) {
            (Reply::Violation(Constraint::MembershipUser), self)
        } else if !self.has_group(group_id) {
            (Reply::Violation(Constraint::MembershipGroup), self)
        } else if self.is_member(group_id, user_id) {
            (Reply::Violation(Constraint::MembershipPair), self)
        } else if self.next_id == u128::MAX {
            (Reply::Failed, self)
        } else {
            (Reply::Id(self.next_id), self.with_membership(user_id, group_id))
        }
    }

    /// The answer to `InsertLedgerRows`, and the state it leaves.
    pub open spec fn insert_ledger_rows(
        self,
        group_id: u128,
        this_users: Seq<u128>,
        other_users: Seq<u128>,
    ) -> (Reply, State) {
        let rows = zero_rows(group_id, this_users, other_users);
        if this_users.len() != other_users.len() {
            (Reply::Failed, self)
        } else if !pairs_distinct(self.ledger + rows) {
            (Reply::Violation(Constraint::LedgerPair), self)
        } else {
            (Reply::Written, self.with_ledger_rows(rows))
        }
    }

    /// The answer to `InsertTransaction`, and the state it leaves.
    pub open spec fn insert_transaction(self, row: TransactionView) -> (Reply, State) {
        if self.next_id == u128::MAX {
            (Reply::Failed, self)
        } else {
            (Reply::Id(self.next_id), self.with_transaction(row))
        }
    }

    /// The answer to `AdjustBalances`, and the state it leaves: both balances
    /// change, or neither does.
    pub open spec fn adjust_balances(
        self,
        group_id: u128,
        payer_id: u128,
        payee_id: u128,
        amount: i64,
    ) -> (Reply, State) {
        let found = mirrored_rows(self.ledger, group_id, payer_id, payee_id);
        let raised = self.balance(group_id, payer_id, payee_id) + amount;
        let lowered = self.balance(group_id, payee_id, payer_id) - amount;
        if found != 2 {
            (Reply::Affected(found as u64), self)
        } else if !(i64::MIN <= raised <= i64::MAX && i64::MIN <= lowered <= i64::MAX) {
            (Reply::OutOfRange, self)
        } else {
            (Reply::Affected(2), self.with_adjustment(group_id, payer_id, payee_id, amount as int))
        }
    }

    /// The answer to `SelectBalance`.
    pub open spec fn select_balance(self, group_id: u128, this_user: u128, other_user: u128) -> Reply {
        if self.has_balance(group_id, this_user, other_user) {
            Reply::Amount(self.balance(group_id, this_user, other_user) as i64)
        } else {
            Reply::NoRow
        }
    }

    /// Whether `reply` is the answer to `SelectMembers`.
    pub open spec fn lists_members(self, group_id: u128, reply: Reply) -> bool {
        &&& reply matches Reply::Members(rows)
        &&& rows@ == self.members(group_id).map_values(|user_id: u128| Some(user_id))
    }

    /// Whether `reply` is the answer to `SelectGroups`.
    pub open spec fn lists_groups(self, user_id: u128, reply: Reply) -> bool {
        &&& reply matches Reply::Groups(rows)
        &&& group_rows(rows@) == groups_of(self.memberships, self.groups, user_id).map_values(
            |group: GroupView| Some(group),
        )
    }

    /// Whether `reply` is the answer to `SelectGroupName`.
    pub open spec fn reads_name(self, group_id: u128, reply: Reply) -> bool {
        if self.has_group(group_id) {
            reply matches Reply::Name(name) && name@ == group_with(self.groups, group_id).name
        } else {
            reply == Reply::NoRow
        }
    }

    /// Whether `reply` is the answer to `UpdateGroupName`, and `after` the
    /// state it leaves.
    pub open spec fn updates_name(
        self,
        group_id: u128,
        name: Option<Seq<char>>,
        reply: Reply,
        after: State,
    ) -> bool {
        if !self.has_group(group_id) {
            reply == Reply::NoRow && after == self
        } else {
            match name {
                None => self.reads_name(group_id, reply) && after == self,
                Some(name) => if group_with(self.groups, group_id).name != name && self.name_taken(
                    name,
                ) {
                    reply == Reply::Violation(Constraint::GroupName) && after == self
                } else {
                    &&& reply matches Reply::Name(given)
                    &&& given@ == name
                    &&& after == self.with_name(group_id, name)
                },
            }
        }
    }

    /// Whether the store, asked `query` in this state, may answer `reply` and
    /// be in state `after`.
    pub open spec fn answers(self, query: Query, reply: Reply, after: State) -> bool {
        match query {
            Query::InsertGroup { name } => (reply, after) == self.insert_group(name@),
            Query::InsertMembership { user_id, group_id } => (reply, after)
                == self.insert_membership(user_id, group_id),
            Query::SelectMembers { group_id } => after == self && self.lists_members(
                group_id,
                reply,
            ),
            Query::InsertLedgerRows { group_id, this_users, other_users } => (reply, after)
                == self.insert_ledger_rows(group_id, this_users@, other_users@),
            Query::InsertTransaction {
                payer_id,
                payee_id,
                group_id,
                amount,
                tx_type,
                ack_status,
                metadata,
            } => (reply, after) == self.insert_transaction(
                TransactionView {
                    id: 0,
                    group_id,
                    payer_id,
                    payee_id,
                    amount,
                    tx_type,
                    ack_status,
                    metadata: metadata@,
                },
            ),
            Query::AdjustBalances { group_id, payer_id, payee_id, amount } => (reply, after)
                == self.adjust_balances(group_id, payer_id, payee_id, amount),
            Query::SelectBalance { group_id, this_user, other_user } => after == self && reply
                == self.select_balance(group_id, this_user, other_user),
            Query::SelectGroups { user_id } => after == self && self.lists_groups(user_id, reply),
            Query::SelectGroupName { group_id } => after == self && self.reads_name(
                group_id,
                reply,
            ),
            Query::UpdateGroupName { group_id, new_name } => self.updates_name(
                group_id,
                match new_name {
                    Some(name) => Some(name@),
                    None => None,
                },
                reply,
                after,
            ),
        }
    }
}

/// One more user keeps the state valid and, where it is, consistent.
pub proof fn lemma_with_user(state: State, user_id: u128)
    requires
        state.valid(),
        !state.has_user(user_id),
    ensures
        state.with_user(user_id).valid(),
        state.consistent() ==> state.with_user(user_id).consistent(),
{
    let after = state.with_user(user_id);
    assert forall|i: int| 0 <= i < after.memberships.len() implies {
        &&& (#[trigger] after.memberships[i]).id < after.next_id
        &&& after.has_user(after.memberships[i].user_id)
        &&& after.has_group(after.memberships[i].group_id)
    } by {
        let row = state.memberships[i];
        assert(row.id < state.next_id);
        assert(state.has_user(row.user_id));
        assert(state.has_group(row.group_id));
        let k = choose|k: int| 0 <= k < state.users.len() && state.users[k] == row.user_id;
        assert(after.users[k] == row.user_id);
        assert(after.groups == state.groups);
    }
    lemma_same_tables(state, after);
}

/// One more group under a name that is free keeps the state valid and,
/// where it is, consistent.
pub proof fn lemma_with_group(state: State, name: Seq<char>)
    requires
        state.valid(),
        !state.name_taken(name),
        state.next_id < u128::MAX,
    ensures
        state.with_group(name).valid(),
        state.consistent() ==> state.with_group(name).consistent(),
{
    let after = state.with_group(name);
    lemma_ids_stay_below(state, after);
    assert forall|i: int, j: int|
        #![trigger after.groups[i], after.groups[j]]
        0 <= i < j < after.groups.len() implies after.groups[i].id != after.groups[j].id
        && after.groups[i].name != after.groups[j].name by {
        if j < state.groups.len() {
            assert(state.groups[i].id != state.groups[j].id);
        } else {
            assert(state.groups[i].id < state.next_id);
            assert(state.groups[i].name != name);
        }
    }
    lemma_same_tables(state, after);
}

/// One more membership of a user and a group that exist, and that it does
/// not join yet, keeps the state valid.
pub proof fn lemma_with_membership(state: State, user_id: u128, group_id: u128)
    requires
        state.valid(),
        state.has_user(user_id),
        state.has_group(group_id),
        !state.is_member(group_id, user_id),
        state.next_id < u128::MAX,
    ensures
        state.with_membership(user_id, group_id).valid(),
{
    let after = state.with_membership(user_id, group_id);
    lemma_ids_stay_below(state, after);
    assert forall|i: int, j: int|
        #![trigger after.memberships[i], after.memberships[j]]
        0 <= i < j < after.memberships.len() implies !after.memberships[i].joins(
        after.memberships[j].group_id,
        after.memberships[j].user_id,
    ) by {
        if j < state.memberships.len() {
            assert(!state.memberships[i].joins(
                state.memberships[j].group_id,
                state.memberships[j].user_id,
            ));
        } else {
            assert(!state.memberships[i].joins(group_id, user_id));
        }
    }
}

/// More balances, none of them for a pair that has one, keep the state
/// valid.
pub proof fn lemma_with_ledger_rows(state: State, rows: Seq<LedgerEntry>)
    requires
        state.valid(),
        pairs_distinct(state.ledger + rows),
    ensures
        state.with_ledger_rows(rows).valid(),
{
    lemma_ids_stay_below(state, state.with_ledger_rows(rows));
}

/// One more transaction keeps the state valid and, where it is, consistent.
pub proof fn lemma_with_transaction(state: State, row: TransactionView)
    requires
        state.valid(),
        state.next_id < u128::MAX,
    ensures
        state.with_transaction(row).valid(),
        state.consistent() ==> state.with_transaction(row).consistent(),
{
    lemma_ids_stay_below(state, state.with_transaction(row));
    lemma_same_tables(state, state.with_transaction(row));
}

/// An adjustment of two balances that are there, to amounts that fit, keeps
/// the state valid.
pub proof fn lemma_with_adjustment(
    state: State,
    group_id: u128,
    payer_id: u128,
    payee_id: u128,
    amount: int,
)
    requires
        state.valid(),
        mirrored_rows(state.ledger, group_id, payer_id, payee_id) == 2,
        i64::MIN <= state.balance(group_id, payer_id, payee_id) + amount <= i64::MAX,
        i64::MIN <= state.balance(group_id, payee_id, payer_id) - amount <= i64::MAX,
    ensures
        state.with_adjustment(group_id, payer_id, payee_id, amount).valid(),
{
    lemma_adjustment(state, group_id, payer_id, payee_id, amount, 0, 0, 0);
    lemma_ids_stay_below(state, state.with_adjustment(group_id, payer_id, payee_id, amount));
}

/// A new name that no other group has keeps the state valid and, where it
/// is, consistent.
pub proof fn lemma_with_name(state: State, group_id: u128, name: Seq<char>)
    requires
        state.valid(),
        state.has_group(group_id),
        group_with(state.groups, group_id).name == name || !state.name_taken(name),
    ensures
        state.with_name(group_id, name).valid(),
        state.consistent() ==> state.with_name(group_id, name).consistent(),
{
    let after = state.with_name(group_id, name);
    let at = choose|i: int| 0 <= i < state.groups.len() && (#[trigger] state.groups[i]).id == group_id;
    lemma_group_with(state.groups, at);
    lemma_ids_stay_below(state, after);
    assert forall|i: int, j: int|
        #![trigger after.groups[i], after.groups[j]]
        0 <= i < j < after.groups.len() implies after.groups[i].id != after.groups[j].id
        && after.groups[i].name != after.groups[j].name by {
        assert(state.groups[i].id != state.groups[j].id && state.groups[i].name
            != state.groups[j].name);
        if state.groups[at].name != name {
            assert(state.groups[i].name != name);
            assert(state.groups[j].name != name);
        }
    }
    lemma_same_tables(state, after);
}

/// Whatever statement the store is asked, and however it answers, a valid
/// state is followed by a valid state: the constraints of the relations hold
/// after every statement.
pub proof fn lemma_statement_keeps_valid(state: State, query: Query, reply: Reply, after: State)
    requires
        state.valid(),
        state.answers(query, reply, after),
    ensures
        after.valid(),
{
    if after != state {
        match query {
            Query::InsertGroup { name } => {
                lemma_with_group(state, name@);
            },
            Query::InsertMembership { user_id, group_id } => {
                lemma_with_membership(state, user_id, group_id);
            },
            Query::InsertLedgerRows { group_id, this_users, other_users } => {
                lemma_with_ledger_rows(state, zero_rows(group_id, this_users@, other_users@));
            },
            Query::InsertTransaction { .. } => {
                lemma_ids_stay_below(state, after);
            },
            Query::AdjustBalances { group_id, payer_id, payee_id, amount } => {
                lemma_with_adjustment(state, group_id, payer_id, payee_id, amount as int);
            },
            Query::UpdateGroupName { group_id, new_name } => {
                lemma_with_name(state, group_id, new_name->0@);
            },
            _ => {},
        }
    }
}

/// Where a statement has added rows or changed names or amounts, but has
/// taken no user or group away and given out ids in turn, every row still
/// has an id below the next one and every membership still names a user and
/// a group that exist.
proof fn lemma_ids_stay_below(state: State, after: State)
    requires
        state.valid(),
        after.users == state.users,
        after.next_id >= state.next_id,
        after.groups.len() >= state.groups.len(),
        forall|i: int|
            0 <= i < state.groups.len() ==> (#[trigger] after.groups[i]).id == state.groups[i].id,
        forall|i: int|
            state.groups.len() <= i < after.groups.len() ==> (#[trigger] after.groups[i]).id
                < after.next_id,
        after.memberships.len() >= state.memberships.len(),
        forall|i: int|
            0 <= i < state.memberships.len() ==> (#[trigger] after.memberships[i])
                == state.memberships[i],
        forall|i: int|
            state.memberships.len() <= i < after.memberships.len() ==> {
                &&& (#[trigger] after.memberships[i]).id < after.next_id
                &&& state.has_user(after.memberships[i].user_id)
                &&& state.has_group(after.memberships[i].group_id)
            },
        after.transactions.len() >= state.transactions.len(),
        forall|i: int|
            0 <= i < state.transactions.len() ==> (#[trigger] after.transactions[i]).id
                == state.transactions[i].id,
        forall|i: int|
            state.transactions.len() <= i < after.transactions.len() ==> (
            #[trigger] after.transactions[i]).id < after.next_id,
    ensures
        forall|i: int| 0 <= i < after.groups.len() ==> (#[trigger] after.groups[i]).id < after.next_id,
        forall|i: int|
            0 <= i < after.memberships.len() ==> {
                &&& (#[trigger] after.memberships[i]).id < after.next_id
                &&& after.has_user(after.memberships[i].user_id)
                &&& after.has_group(after.memberships[i].group_id)
            },
        forall|i: int|
            0 <= i < after.transactions.len() ==> (#[trigger] after.transactions[i]).id
                < after.next_id,
{
    assert forall|i: int| 0 <= i < after.groups.len() implies (#[trigger] after.groups[i]).id
        < after.next_id by {
        if i < state.groups.len() {
            assert(state.groups[i].id < state.next_id);
        }
    }
    assert forall|group_id: u128| state.has_group(group_id) implies after.has_group(group_id) by {
        let k = choose|k: int|
            0 <= k < state.groups.len() && (#[trigger] state.groups[k]).id == group_id;
        assert(after.groups[k].id == group_id);
    }
    assert forall|i: int| 0 <= i < after.memberships.len() implies {
        &&& (#[trigger] after.memberships[i]).id < after.next_id
        &&& after.has_user(after.memberships[i].user_id)
        &&& after.has_group(after.memberships[i].group_id)
    } by {
        if i < state.memberships.len() {
            let row = state.memberships[i];
            assert(row.id < state.next_id);
            assert(state.has_user(row.user_id));
            assert(state.has_group(row.group_id));
        }
    }
    assert forall|i: int| 0 <= i < after.transactions.len() implies (
    #[trigger] after.transactions[i]).id < after.next_id by {
        if i < state.transactions.len() {
            assert(state.transactions[i].id < state.next_id);
        }
    }
}

/// What an adjustment does to every balance: the payer's against the payee
/// rises by the amount, the payee's against the payer falls by it, and every
/// other balance stays.
pub proof fn lemma_adjustment(
    base: State,
    group_id: u128,
    payer_id: u128,
    payee_id: u128,
    amount: int,
    g: u128,
    a: u128,
    b: u128,
)
    requires
        pairs_distinct(base.ledger),
        mirrored_rows(base.ledger, group_id, payer_id, payee_id) == 2,
        i64::MIN <= base.balance(group_id, payer_id, payee_id) + amount <= i64::MAX,
        i64::MIN <= base.balance(group_id, payee_id, payer_id) - amount <= i64::MAX,
    ensures
        pairs_distinct(base.with_adjustment(group_id, payer_id, payee_id, amount).ledger),
        base.with_adjustment(group_id, payer_id, payee_id, amount).has_balance(g, a, b)
            <==> base.has_balance(g, a, b),
        base.has_balance(g, a, b) ==> base.with_adjustment(
            group_id,
            payer_id,
            payee_id,
            amount,
        ).balance(g, a, b) == base.balance(g, a, b) + if g == group_id && a == payer_id && b
            == payee_id {
            amount
        } else if g == group_id && a == payee_id && b == payer_id {
            -amount
        } else {
            0
        },
{
    let after = base.with_adjustment(group_id, payer_id, payee_id, amount);
    let i = row_at(base.ledger, group_id, payer_id, payee_id);
    let j = row_at(base.ledger, group_id, payee_id, payer_id);
    if base.has_balance(g, a, b) {
        let k = row_at(base.ledger, g, a, b);
        lemma_row_at(after.ledger, k);
        lemma_row_at(base.ledger, i);
        lemma_row_at(base.ledger, j);
        lemma_row_at(base.ledger, k);
    }
    if after.has_balance(g, a, b) {
        let k = row_at(after.ledger, g, a, b);
        assert(base.ledger[k].is_for(g, a, b));
    }
}

} // verus!
