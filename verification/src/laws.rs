use crate::error::Error;
use crate::logic::ledger::pair_rows;
use crate::store::model::{joined, lemma_members_of, lemma_members_of_distinct};
use crate::store::model::{lemma_row_at, pairs_distinct, row_at, Membership, State};
use crate::store::statements::{lemma_adjustment, lemma_with_adjustment, lemma_with_group};
use crate::store::statements::{lemma_with_ledger_rows, lemma_with_membership, lemma_with_name};
use crate::store::statements::{lemma_with_transaction, lemma_with_user, mirrored_rows};
use crate::transactions::{signed, AckStatus, TransactionView, TxType};
use vstd::prelude::*;

verus! {

/// One more membership makes its user a member of its group, and changes
/// nothing else about who belongs where.
pub proof fn lemma_joined_push(
    memberships: Seq<Membership>,
    row: Membership,
    group_id: u128,
    user_id: u128,
)
    ensures
        joined(memberships.push(row), group_id, user_id) <==> joined(
            memberships,
            group_id,
            user_id,
        ) || row.joins(group_id, user_id),
{
    let grown = memberships.push(row);
    if joined(memberships, group_id, user_id) {
        let i = choose|i: int|
            0 <= i < memberships.len() && (#[trigger] memberships[i]).joins(group_id, user_id);
        assert(grown[i].joins(group_id, user_id));
    }
    if row.joins(group_id, user_id) {
        assert(grown[memberships.len() as int].joins(group_id, user_id));
    }
}

/// The balances that a new member gets: the first half are those of the
/// others against the new member, the second half those of the new member
/// against the others, and all are zero.
pub proof fn lemma_pair_rows(group_id: u128, user_id: u128, others: Seq<u128>, k: int)
    requires
        0 <= k < 2 * others.len(),
    ensures
        pair_rows(group_id, user_id, others).len() == 2 * others.len(),
        pair_rows(group_id, user_id, others)[k].amount == 0,
        k < others.len() ==> pair_rows(group_id, user_id, others)[k].is_for(
            group_id,
            others[k],
            user_id,
        ),
        k >= others.len() ==> pair_rows(group_id, user_id, others)[k].is_for(
            group_id,
            user_id,
            others[k - others.len()],
        ),
{
}

/// In a consistent state the balances that a new member needs are not there
/// yet: a user who can join otherwise is not held up by the ledger.
pub proof fn lemma_join_finds_no_rows(base: State, group_id: u128, user_id: u128)
    requires
        base.valid(),
        base.consistent(),
        !base.is_member(group_id, user_id),
    ensures
        pairs_distinct(base.ledger + pair_rows(group_id, user_id, base.members(group_id))),
{
    lemma_members_of_distinct(base.memberships, group_id);
    lemma_members_of(base.memberships, group_id, user_id);
}

/// A join keeps the state consistent: the new member has both balances with
/// every other member, all of them zero, and nothing else has changed.
pub proof fn lemma_join_keeps_consistent(base: State, group_id: u128, user_id: u128)
    requires
        base.valid(),
        base.consistent(),
        base.join_refusal(group_id, user_id) is None,
    ensures
        base.joined_by(group_id, user_id).consistent(),
{
    let after = base.joined_by(group_id, user_id);
    let others = base.members(group_id);
    let held = base.ledger.len() as int;
    let n = others.len() as int;
    let row = Membership { id: base.next_id, group_id, user_id };
    lemma_members_of(base.memberships, group_id, user_id);
    assert forall|g: u128, a: u128|
        after.is_member(g, a) <==> base.is_member(g, a) || (g == group_id && a == user_id) by {
        lemma_joined_push(base.memberships, row, g, a);
    }
    assert forall|i: int| 0 <= i < after.ledger.len() implies {
        &&& (#[trigger] after.ledger[i]).this_user != after.ledger[i].other_user
        &&& after.is_member(after.ledger[i].group_id, after.ledger[i].this_user)
        &&& after.is_member(after.ledger[i].group_id, after.ledger[i].other_user)
    } by {
        if i >= held {
            let k = i - held;
            lemma_pair_rows(group_id, user_id, others, k);
            if k < n {
                lemma_members_of(base.memberships, group_id, others[k]);
            } else {
                lemma_members_of(base.memberships, group_id, others[k - n]);
            }
        }
    }
    assert forall|g: u128, a: u128, b: u128|
        after.is_member(g, a) && after.is_member(g, b) && a != b implies #[trigger] after.has_balance(
        g,
        a,
        b,
    ) by {
        if base.is_member(g, a) && base.is_member(g, b) {
            assert(base.has_balance(g, a, b));
            let i = row_at(base.ledger, g, a, b);
            assert(after.ledger[i].is_for(g, a, b));
        } else if base.is_member(g, b) {
            lemma_members_of(base.memberships, group_id, b);
            let k = choose|k: int| 0 <= k < others.len() && others[k] == b;
            lemma_pair_rows(group_id, user_id, others, n + k);
            assert(after.ledger[held + n + k].is_for(g, a, b));
        } else {
            lemma_members_of(base.memberships, group_id, a);
            let k = choose|k: int| 0 <= k < others.len() && others[k] == a;
            lemma_pair_rows(group_id, user_id, others, k);
            assert(after.ledger[held + k].is_for(g, a, b));
        }
    }
    assert forall|g: u128, a: u128, b: u128|
        after.has_balance(g, a, b) && after.has_balance(g, b, a) implies #[trigger] after.balance(
        g,
        a,
        b,
    ) == -after.balance(g, b, a) by {
        let i = row_at(after.ledger, g, a, b);
        let j = row_at(after.ledger, g, b, a);
        if i >= held {
            lemma_pair_rows(group_id, user_id, others, i - held);
        }
        if j >= held {
            lemma_pair_rows(group_id, user_id, others, j - held);
        }
        if i < held && j < held {
            lemma_row_at(base.ledger, i);
            lemma_row_at(base.ledger, j);
            assert(base.balance(g, a, b) == -base.balance(g, b, a));
        }
    }
}

/// A posting keeps the state consistent.
pub proof fn lemma_post_keeps_consistent(base: State, row: TransactionView)
    requires
        base.valid(),
        base.consistent(),
        mirrored_rows(base.ledger, row.group_id, row.payer_id, row.payee_id) == 2,
        i64::MIN <= base.balance(row.group_id, row.payer_id, row.payee_id) + row.amount <= i64::MAX,
        i64::MIN <= base.balance(row.group_id, row.payee_id, row.payer_id) - row.amount <= i64::MAX,
    ensures
        base.posted(row).consistent(),
{
    let after = base.posted(row);
    let recorded = base.with_transaction(row);
    let group_id = row.group_id;
    let payer_id = row.payer_id;
    let payee_id = row.payee_id;
    let amount = row.amount as int;
    assert forall|g: u128, a: u128, b: u128|
        after.is_member(g, a) && after.is_member(g, b) && a != b implies #[trigger] after.has_balance(
        g,
        a,
        b,
    ) by {
        assert(base.has_balance(g, a, b));
        lemma_adjustment(recorded, group_id, payer_id, payee_id, amount, g, a, b);
    }
    assert forall|g: u128, a: u128, b: u128|
        after.has_balance(g, a, b) && after.has_balance(g, b, a) implies #[trigger] after.balance(
        g,
        a,
        b,
    ) == -after.balance(g, b, a) by {
        lemma_adjustment(recorded, group_id, payer_id, payee_id, amount, g, a, b);
        lemma_adjustment(recorded, group_id, payer_id, payee_id, amount, g, b, a);
        assert(base.balance(g, a, b) == -base.balance(g, b, a));
    }
}

/// A request that changes the ledger, by what it asks for.
pub enum Call {
    /// A user signs up.
    Register { user_id: u128 },
    /// A user creates a group and becomes its first member.
    CreateGroup { name: Seq<char>, owner: u128 },
    /// A user joins a group.
    Join { group_id: u128, user_id: u128 },
    /// A member posts a transaction with another member.
    Post {
        group_id: u128,
        payer_id: u128,
        payee_id: u128,
        amount: i64,
        tx_type: TxType,
        metadata: Map<String, String>,
    },
    /// A group gets a new name.
    Rename { group_id: u128, name: Seq<char> },
}

impl State {
    /// The state after `call`: what the call asks for where it is not
    /// refused, and the same state where it is.
    pub open spec fn after(self, call: Call) -> State {
        match call {
            Call::Register { user_id } => if self.has_user(user_id) {
                self
            } else {
                self.with_user(user_id)
            },
            Call::CreateGroup { name, owner } => if self.creation_refusal(name, owner) is None {
                self.created_by(name, owner)
            } else {
                self
            },
            Call::Join { group_id, user_id } => if self.join_refusal(group_id, user_id) is None {
                self.joined_by(group_id, user_id)
            } else {
                self
            },
            Call::Post { group_id, payer_id, payee_id, amount, tx_type, metadata } => if self.post_refusal(
                group_id,
                payer_id,
                payee_id,
                amount,
                tx_type,
            ) is None {
                self.posted(
                    TransactionView {
                        id: self.next_id,
                        group_id,
                        payer_id,
                        payee_id,
                        amount: signed(amount, tx_type) as i64,
                        tx_type,
                        ack_status: AckStatus::NotAck,
                        metadata,
                    },
                )
            } else {
                self
            },
            Call::Rename { group_id, name } => if self.rename_refusal(group_id, name) is None {
                self.with_name(group_id, name)
            } else {
                self
            },
        }
    }

    /// The state after `calls`, one after the other.
    pub open spec fn after_all(self, calls: Seq<Call>) -> State
        decreases calls.len(),
    {
        if calls.len() == 0 {
            self
        } else {
            self.after_all(calls.drop_last()).after(calls.last())
        }
    }
}

/// A user who can join leaves the state valid.
pub proof fn lemma_join_keeps_valid(base: State, group_id: u128, user_id: u128)
    requires
        base.valid(),
        base.join_refusal(group_id, user_id) is None,
    ensures
        base.joined_by(group_id, user_id).valid(),
{
    lemma_with_membership(base, user_id, group_id);
    lemma_with_ledger_rows(
        base.with_membership(user_id, group_id),
        pair_rows(group_id, user_id, base.members(group_id)),
    );
}

/// A transaction that can be posted leaves the state valid.
pub proof fn lemma_post_keeps_valid(
    base: State,
    group_id: u128,
    payer_id: u128,
    payee_id: u128,
    amount: i64,
    tx_type: TxType,
    row: TransactionView,
)
    requires
        base.valid(),
        base.post_refusal(group_id, payer_id, payee_id, amount, tx_type) is None,
        row.group_id == group_id,
        row.payer_id == payer_id,
        row.payee_id == payee_id,
        row.amount == signed(amount, tx_type),
    ensures
        base.posted(row).valid(),
{
    lemma_with_transaction(base, row);
    lemma_with_adjustment(
        base.with_transaction(row),
        group_id,
        payer_id,
        payee_id,
        row.amount as int,
    );
}

/// Whatever is asked of a ledger that is valid and consistent, refused or
/// not, the ledger is valid and consistent afterwards.
pub proof fn law_calls_keep_the_ledger_sound(state: State, call: Call)
    requires
        state.valid(),
        state.consistent(),
    ensures
        state.after(call).valid(),
        state.after(call).consistent(),
{
    if state.after(call) != state {
        match call {
            Call::Register { user_id } => {
                lemma_with_user(state, user_id);
            },
            Call::CreateGroup { name, owner } => {
                let created = state.with_group(name);
                lemma_with_group(state, name);
                lemma_join_keeps_valid(created, state.next_id, owner);
                lemma_join_keeps_consistent(created, state.next_id, owner);
            },
            Call::Join { group_id, user_id } => {
                lemma_join_keeps_valid(state, group_id, user_id);
                lemma_join_keeps_consistent(state, group_id, user_id);
            },
            Call::Post { group_id, payer_id, payee_id, amount, tx_type, metadata } => {
                let row = TransactionView {
                    id: state.next_id,
                    group_id,
                    payer_id,
                    payee_id,
                    amount: signed(amount, tx_type) as i64,
                    tx_type,
                    ack_status: AckStatus::NotAck,
                    metadata,
                };
                lemma_post_keeps_valid(state, group_id, payer_id, payee_id, amount, tx_type, row);
                lemma_post_keeps_consistent(state, row);
            },
            Call::Rename { group_id, name } => {
                lemma_with_name(state, group_id, name);
            },
        }
    }
}

/// Every ledger that grows from the empty one by requests, in whatever
/// order and whether they are refused or not, is valid and consistent: no
/// two rows have the same key, every two members of a group have both their
/// balances, and the two balances of a pair are each other's negation.
pub proof fn law_every_ledger_is_sound(calls: Seq<Call>)
    ensures
        State::empty().after_all(calls).valid(),
        State::empty().after_all(calls).consistent(),
    decreases calls.len(),
{
    if calls.len() > 0 {
        law_every_ledger_is_sound(calls.drop_last());
        law_calls_keep_the_ledger_sound(State::empty().after_all(calls.drop_last()), calls.last());
    }
}

/// Between any two members of a group, what the one is owed by the other is
/// the negation of what the other is owed by the one.
pub proof fn law_balances_are_mirrored(state: State, group_id: u128, a: u128, b: u128)
    requires
        state.consistent(),
        state.is_member(group_id, a),
        state.is_member(group_id, b),
        a != b,
    ensures
        state.balance(group_id, a, b) == -state.balance(group_id, b, a),
{
}

/// Every two distinct members of a group have both of their balances.
pub proof fn law_pairs_are_complete(state: State, group_id: u128, a: u128, b: u128)
    requires
        state.consistent(),
        state.is_member(group_id, a),
        state.is_member(group_id, b),
        a != b,
    ensures
        state.has_balance(group_id, a, b),
        state.has_balance(group_id, b, a),
{
}

/// Right after a user has joined a group, the user and each member who was
/// there before owe each other nothing.
pub proof fn law_join_starts_at_zero(base: State, group_id: u128, user_id: u128, member: u128)
    requires
        base.valid(),
        base.join_refusal(group_id, user_id) is None,
        base.members(group_id).contains(member),
    ensures
        base.joined_by(group_id, user_id).has_balance(group_id, user_id, member),
        base.joined_by(group_id, user_id).has_balance(group_id, member, user_id),
        base.joined_by(group_id, user_id).balance(group_id, user_id, member) == 0,
        base.joined_by(group_id, user_id).balance(group_id, member, user_id) == 0,
{
    let after = base.joined_by(group_id, user_id);
    let others = base.members(group_id);
    let held = base.ledger.len() as int;
    let n = others.len() as int;
    let k = choose|k: int| 0 <= k < others.len() && others[k] == member;
    lemma_pair_rows(group_id, user_id, others, k);
    lemma_pair_rows(group_id, user_id, others, n + k);
    lemma_row_at(after.ledger, held + k);
    lemma_row_at(after.ledger, held + n + k);
}

/// A join leaves every balance that was there as it was.
pub proof fn law_join_keeps_balances(
    base: State,
    group_id: u128,
    user_id: u128,
    g: u128,
    a: u128,
    b: u128,
)
    requires
        base.valid(),
        base.join_refusal(group_id, user_id) is None,
        base.has_balance(g, a, b),
    ensures
        base.joined_by(group_id, user_id).has_balance(g, a, b),
        base.joined_by(group_id, user_id).balance(g, a, b) == base.balance(g, a, b),
{
    let after = base.joined_by(group_id, user_id);
    let i = row_at(base.ledger, g, a, b);
    lemma_row_at(after.ledger, i);
}

/// After a transaction was posted, the payer is owed by the payee exactly the
/// signed amount more than before, and the payee by the payer exactly as
/// much less: for a credit the declared amount, for a debit its negation.
pub proof fn law_posting_adds_up(
    base: State,
    group_id: u128,
    payer_id: u128,
    payee_id: u128,
    amount: i64,
    tx_type: TxType,
    row: TransactionView,
)
    requires
        base.valid(),
        base.post_refusal(group_id, payer_id, payee_id, amount, tx_type) is None,
        row.group_id == group_id,
        row.payer_id == payer_id,
        row.payee_id == payee_id,
        row.amount == signed(amount, tx_type),
    ensures
        base.posted(row).balance(group_id, payer_id, payee_id) == base.balance(
            group_id,
            payer_id,
            payee_id,
        ) + signed(amount, tx_type),
        base.posted(row).balance(group_id, payee_id, payer_id) == base.balance(
            group_id,
            payee_id,
            payer_id,
        ) - signed(amount, tx_type),
{
    let recorded = base.with_transaction(row);
    lemma_adjustment(
        recorded,
        group_id,
        payer_id,
        payee_id,
        row.amount as int,
        group_id,
        payer_id,
        payee_id,
    );
    lemma_adjustment(
        recorded,
        group_id,
        payer_id,
        payee_id,
        row.amount as int,
        group_id,
        payee_id,
        payer_id,
    );
}

/// A posting neither adds a balance nor takes one away, and it leaves every
/// balance but the two of its pair as it was.
pub proof fn law_posting_keeps_the_rest(
    base: State,
    group_id: u128,
    payer_id: u128,
    payee_id: u128,
    amount: i64,
    tx_type: TxType,
    row: TransactionView,
    g: u128,
    a: u128,
    b: u128,
)
    requires
        base.valid(),
        base.post_refusal(group_id, payer_id, payee_id, amount, tx_type) is None,
        row.group_id == group_id,
        row.payer_id == payer_id,
        row.payee_id == payee_id,
        row.amount == signed(amount, tx_type),
    ensures
        base.posted(row).ledger.len() == base.ledger.len(),
        base.posted(row).memberships == base.memberships,
        base.posted(row).has_balance(g, a, b) <==> base.has_balance(g, a, b),
        base.has_balance(g, a, b) && !(g == group_id && ((a == payer_id && b == payee_id) || (a
            == payee_id && b == payer_id))) ==> base.posted(row).balance(g, a, b) == base.balance(
            g,
            a,
            b,
        ),
{
    let recorded = base.with_transaction(row);
    lemma_adjustment(recorded, group_id, payer_id, payee_id, row.amount as int, g, a, b);
}

/// In a consistent state a transaction between two distinct members of a
/// group never finds a balance missing.
pub proof fn law_members_can_be_paid(
    base: State,
    group_id: u128,
    payer_id: u128,
    payee_id: u128,
    amount: i64,
    tx_type: TxType,
)
    requires
        base.consistent(),
        base.is_member(group_id, payer_id),
        base.is_member(group_id, payee_id),
        payer_id != payee_id,
    ensures
        base.post_refusal(group_id, payer_id, payee_id, amount, tx_type) != Some(
            Error::LedgerRowMissing,
        ),
{
    assert(base.has_balance(group_id, payer_id, payee_id));
    assert(base.has_balance(group_id, payee_id, payer_id));
}

/// A debit of an amount and a credit of its negation are refused in the same
/// states and for the same reason, and where they are not refused they leave
/// the same balances.
pub proof fn law_debit_is_negated_credit(
    base: State,
    group_id: u128,
    payer_id: u128,
    payee_id: u128,
    amount: i64,
    debit: TransactionView,
    credit: TransactionView,
)
    requires
        amount != i64::MIN,
        debit.group_id == group_id && credit.group_id == group_id,
        debit.payer_id == payer_id && credit.payer_id == payer_id,
        debit.payee_id == payee_id && credit.payee_id == payee_id,
        debit.amount == signed(amount, TxType::Debit),
        credit.amount == signed((-amount) as i64, TxType::Credit),
    ensures
        base.post_refusal(group_id, payer_id, payee_id, amount, TxType::Debit)
            == base.post_refusal(group_id, payer_id, payee_id, (-amount) as i64, TxType::Credit),
        base.posted(debit).ledger == base.posted(credit).ledger,
{
}

} // verus!
