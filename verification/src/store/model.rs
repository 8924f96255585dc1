use crate::dto::group::GroupView;
use crate::transactions::TransactionView;
use vstd::prelude::*;

verus! {

/// One user belonging to one group.
#[derive(Clone, Copy, PartialEq, Eq, Debug, Structural)]
pub struct Membership {
    pub id: u128,
    pub group_id: u128,
    pub user_id: u128,
}

impl Membership {
    /// Whether this row says that `user_id` belongs to `group_id`.
    pub open spec fn joins(self, group_id: u128, user_id: u128) -> bool {
        self.group_id == group_id && self.user_id == user_id
    }
}

/// One directed balance: within `group_id`, `this_user` is owed `amount` by
/// `other_user` (a negative amount means that `this_user` owes).
#[derive(Clone, Copy, PartialEq, Eq, Debug, Structural)]
pub struct LedgerEntry {
    pub group_id: u128,
    pub this_user: u128,
    pub other_user: u128,
    pub amount: i64,
}

impl LedgerEntry {
    /// Whether this row is the balance of `this_user` against `other_user`
    /// in `group_id`.
    pub open spec fn is_for(self, group_id: u128, this_user: u128, other_user: u128) -> bool {
        self.group_id == group_id && self.this_user == this_user && self.other_user == other_user
    }
}

/// Whether some row of `memberships` says that `user_id` belongs to `group_id`.
pub open spec fn joined(memberships: Seq<Membership>, group_id: u128, user_id: u128) -> bool {
    exists|i: int|
        0 <= i < memberships.len() && (#[trigger] memberships[i]).joins(group_id, user_id)
}

/// The users of `group_id`, in the order of their rows.
pub open spec fn members_of(memberships: Seq<Membership>, group_id: u128) -> Seq<u128> {
    memberships.filter(|row: Membership| row.group_id == group_id).map_values(
        |row: Membership| row.user_id,
    )
}

/// Whether `rows` holds the balance of `this_user` against `other_user` in
/// `group_id`.
pub open spec fn has_row(
    rows: Seq<LedgerEntry>,
    group_id: u128,
    this_user: u128,
    other_user: u128,
) -> bool {
    exists|i: int|
        0 <= i < rows.len() && (#[trigger] rows[i]).is_for(group_id, this_user, other_user)
}

/// Where in `rows` the balance of `this_user` against `other_user` in
/// `group_id` stands, if it is there.
pub open spec fn row_at(
    rows: Seq<LedgerEntry>,
    group_id: u128,
    this_user: u128,
    other_user: u128,
) -> int {
    choose|i: int|
        0 <= i < rows.len() && (#[trigger] rows[i]).is_for(group_id, this_user, other_user)
}

/// No two rows are the balance of the same ordered pair in the same group.
pub open spec fn pairs_distinct(rows: Seq<LedgerEntry>) -> bool {
    forall|i: int, j: int|
        #![trigger rows[i], rows[j]]
        0 <= i < j < rows.len() ==> !rows[i].is_for(
            rows[j].group_id,
            rows[j].this_user,
            rows[j].other_user,
        )
}

/// The rows that a bulk insert keyed by two parallel arrays of users writes:
/// one zero balance for each position.
pub open spec fn zero_rows(group_id: u128, this_users: Seq<u128>, other_users: Seq<u128>) -> Seq<
    LedgerEntry,
> {
    Seq::new(
        this_users.len(),
        |i: int|
            LedgerEntry {
                group_id,
                this_user: this_users[i],
                other_user: other_users[i],
                amount: 0,
            },
    )
}

/// The four relations of the ledger and the users that the identity store
/// knows, each as the sequence of its rows.
#[verifier::ext_equal]
pub struct State {
    pub users: Seq<u128>,
    pub groups: Seq<GroupView>,
    pub memberships: Seq<Membership>,
    pub ledger: Seq<LedgerEntry>,
    pub transactions: Seq<TransactionView>,
    /// The id that the next inserted row gets.
    pub next_id: u128,
}

impl State {
    pub open spec fn has_user(self, user_id: u128) -> bool {
        self.users.contains(user_id)
    }

    pub open spec fn has_group(self, group_id: u128) -> bool {
        exists|i: int| 0 <= i < self.groups.len() && (#[trigger] self.groups[i]).id == group_id
    }

    pub open spec fn name_taken(self, name: Seq<char>) -> bool {
        exists|i: int| 0 <= i < self.groups.len() && (#[trigger] self.groups[i]).name == name
    }

    pub open spec fn is_member(self, group_id: u128, user_id: u128) -> bool {
        joined(self.memberships, group_id, user_id)
    }

    /// The users of `group_id`, in the order in which they joined.
    pub open spec fn members(self, group_id: u128) -> Seq<u128> {
        members_of(self.memberships, group_id)
    }

    pub open spec fn has_balance(self, group_id: u128, this_user: u128, other_user: u128) -> bool {
        has_row(self.ledger, group_id, this_user, other_user)
    }

    /// What `this_user` is owed by `other_user` in `group_id`; meaningful
    /// where `has_balance` holds.
    pub open spec fn balance(self, group_id: u128, this_user: u128, other_user: u128) -> int {
        self.ledger[row_at(self.ledger, group_id, this_user, other_user)].amount as int
    }

    /// What the constraints of the relations guarantee of every state: keys
    /// are unique, and a membership refers to a user and a group that exist.
    pub open spec fn valid(self) -> bool {
        &&& self.users.no_duplicates()
        &&& forall|i: int, j: int|
            #![trigger self.groups[i], self.groups[j]]
            0 <= i < j < self.groups.len() ==> self.groups[i].id != self.groups[j].id
                && self.groups[i].name != self.groups[j].name
        &&& forall|i: int| 0 <= i < self.groups.len() ==> (#[trigger] self.groups[i]).id < self.next_id
        &&& forall|i: int, j: int|
            #![trigger self.memberships[i], self.memberships[j]]
            0 <= i < j < self.memberships.len() ==> !self.memberships[i].joins(
                self.memberships[j].group_id,
                self.memberships[j].user_id,
            )
        &&& forall|i: int|
            0 <= i < self.memberships.len() ==> {
                &&& (#[trigger] self.memberships[i]).id < self.next_id
                &&& self.has_user(self.memberships[i].user_id)
                &&& self.has_group(self.memberships[i].group_id)
            }
        &&& pairs_distinct(self.ledger)
        &&& forall|i: int|
            0 <= i < self.transactions.len() ==> (#[trigger] self.transactions[i]).id
                < self.next_id
    }

    /// What holds between units of work: balances stand between members only,
    /// every two members of a group have both their balances, and the two
    /// balances of a pair are each other's negation.
    pub open spec fn consistent(self) -> bool {
        &&& forall|i: int|
            0 <= i < self.ledger.len() ==> {
                &&& (#[trigger] self.ledger[i]).this_user != self.ledger[i].other_user
                &&& self.is_member(self.ledger[i].group_id, self.ledger[i].this_user)
                &&& self.is_member(self.ledger[i].group_id, self.ledger[i].other_user)
            }
        &&& forall|g: u128, a: u128, b: u128|
            self.is_member(g, a) && self.is_member(g, b) && a != b ==> #[trigger] self.has_balance(
                g,
                a,
                b,
            )
        &&& forall|g: u128, a: u128, b: u128|
            self.has_balance(g, a, b) && self.has_balance(g, b, a) ==> #[trigger] self.balance(
                g,
                a,
                b,
            ) == -self.balance(g, b, a)
    }
}

/// Consistency speaks of the memberships and the balances only.
pub proof fn lemma_same_tables(before: State, after: State)
    requires
        after.memberships == before.memberships,
        after.ledger == before.ledger,
    ensures
        before.consistent() ==> after.consistent(),
{
    if before.consistent() {
        assert forall|g: u128, a: u128, b: u128|
            after.is_member(g, a) && after.is_member(g, b) && a != b implies #[trigger] after.has_balance(
            g,
            a,
            b,
        ) by {
            assert(before.has_balance(g, a, b));
        }
        assert forall|g: u128, a: u128, b: u128|
            after.has_balance(g, a, b) && after.has_balance(g, b, a) implies #[trigger] after.balance(
            g,
            a,
            b,
        ) == -after.balance(g, b, a) by {
            assert(before.balance(g, a, b) == -before.balance(g, b, a));
        }
    }
}

/// Where a row is found, every other place holds another pair.
pub proof fn lemma_row_at(rows: Seq<LedgerEntry>, i: int)
    requires
        pairs_distinct(rows),
        0 <= i < rows.len(),
    ensures
        has_row(rows, rows[i].group_id, rows[i].this_user, rows[i].other_user),
        row_at(rows, rows[i].group_id, rows[i].this_user, rows[i].other_user) == i,
{
}

/// Adding a row to the memberships adds its user to the members of its group
/// and leaves the members of every other group as they were.
pub proof fn lemma_members_of_push(memberships: Seq<Membership>, row: Membership, group_id: u128)
    ensures
        members_of(memberships.push(row), group_id) == if row.group_id == group_id {
            members_of(memberships, group_id).push(row.user_id)
        } else {
            members_of(memberships, group_id)
        },
{
    reveal_with_fuel(Seq::filter, 2);
    assert(memberships.push(row).drop_last() =~= memberships);
    if row.group_id == group_id {
        assert(members_of(memberships.push(row), group_id) =~= members_of(memberships, group_id).push(
            row.user_id,
        ));
    }
}

/// The members of a group, by the last row of the memberships.
proof fn lemma_members_of_last(memberships: Seq<Membership>, group_id: u128)
    requires
        memberships.len() > 0,
    ensures
        members_of(memberships, group_id) == if memberships.last().group_id == group_id {
            members_of(memberships.drop_last(), group_id).push(memberships.last().user_id)
        } else {
            members_of(memberships.drop_last(), group_id)
        },
{
    assert(memberships.drop_last().push(memberships.last()) =~= memberships);
    lemma_members_of_push(memberships.drop_last(), memberships.last(), group_id);
}

/// A user is listed among the members of a group exactly where a row joins
/// the two.
pub proof fn lemma_members_of(memberships: Seq<Membership>, group_id: u128, user_id: u128)
    ensures
        members_of(memberships, group_id).contains(user_id) <==> joined(
            memberships,
            group_id,
            user_id,
        ),
    decreases memberships.len(),
{
    if memberships.len() > 0 {
        let before = memberships.drop_last();
        lemma_members_of(before, group_id, user_id);
        lemma_members_of_last(memberships, group_id);
        let listed = members_of(memberships, group_id);
        if joined(memberships, group_id, user_id) {
            let i = choose|i: int|
                0 <= i < memberships.len() && (#[trigger] memberships[i]).joins(group_id, user_id);
            if i < before.len() {
                assert(before[i].joins(group_id, user_id));
                let k = choose|k: int|
                    0 <= k < members_of(before, group_id).len() && members_of(before, group_id)[k]
                        == user_id;
                assert(listed[k] == user_id);
            } else {
                assert(listed[listed.len() - 1] == user_id);
            }
        }
    }
}

/// Where no two rows join the same user to the same group, no user is listed
/// twice among the members of a group.
pub proof fn lemma_members_of_distinct(memberships: Seq<Membership>, group_id: u128)
    requires
        forall|i: int, j: int|
            #![trigger memberships[i], memberships[j]]
            0 <= i < j < memberships.len() ==> !memberships[i].joins(
                memberships[j].group_id,
                memberships[j].user_id,
            ),
    ensures
        members_of(memberships, group_id).no_duplicates(),
    decreases memberships.len(),
{
    if memberships.len() > 0 {
        let before = memberships.drop_last();
        let last = memberships.last();
        lemma_members_of_distinct(before, group_id);
        lemma_members_of_last(memberships, group_id);
        if last.group_id == group_id {
            lemma_members_of(before, group_id, last.user_id);
        }
    }
}

} // verus!
