use crate::error::Error;
use crate::protocol::{Query, Reply, Step};
use crate::store::memory::Store;
use crate::store::model::{zero_rows, LedgerEntry};
use vstd::prelude::*;

verus! {

/// `count` times `user_id`.
pub open spec fn repeated(user_id: u128, count: nat) -> Seq<u128> {
    Seq::new(count, |i: int| user_id)
}

/// The left array of the bulk insert for a new member: the other members,
/// then the new member once for each of them.
pub open spec fn this_side(others: Seq<u128>, user_id: u128) -> Seq<u128> {
    others + repeated(user_id, others.len())
}

/// The right array of the bulk insert for a new member: the new member once
/// for each of the other members, then the other members.
pub open spec fn other_side(others: Seq<u128>, user_id: u128) -> Seq<u128> {
    repeated(user_id, others.len()) + others
}

/// The balances that a new member needs: against each of the others, and of
/// each of the others against the new member, all zero.
pub open spec fn pair_rows(group_id: u128, user_id: u128, others: Seq<u128>) -> Seq<LedgerEntry> {
    zero_rows(group_id, this_side(others, user_id), other_side(others, user_id))
}

/// What initialises the balances of new members.
pub trait LedgerHandler {}

/// Initialises the balances of a new member against the members that were
/// there before.
#[derive(Clone, Copy, PartialEq, Eq, Debug, Structural)]
pub struct Handler {}

impl Handler {
    pub fn new() -> Self {
        Self {}
    }

    /// The statement that gives `user_id` a zero balance against each of
    /// `other_users_in_group_ids` and each of them one against `user_id`, or
    /// `None` where there is nobody else: the first member of a group has
    /// nobody to balance against.
    pub fn init_ledger_entries(
        &self,
        group_id: u128,
        user_id: u128,
        other_users_in_group_ids: Vec<u128>,
    ) -> (query: Option<Query>)
        ensures
            other_users_in_group_ids.len() == 0 <==> query is None,
            query matches Some(q) ==> {
                &&& q matches Query::InsertLedgerRows { group_id: g, this_users, other_users }
                &&& g == group_id
                &&& this_users@ == this_side(other_users_in_group_ids@, user_id)
                &&& other_users@ == other_side(other_users_in_group_ids@, user_id)
            },
    {
        let count = other_users_in_group_ids.len();
        if count == 0 {
            return None;
        }
        let mut this_users: Vec<u128> = Vec::new();
        let mut other_users: Vec<u128> = Vec::new();
        let mut i: usize = 0;
        while i < count
            invariant
                i <= count,
                count == other_users_in_group_ids.len(),
                this_users@ == other_users_in_group_ids@.take(i as int),
                other_users@ == repeated(user_id, i as nat),
            decreases count - i,
        {
            this_users.push(other_users_in_group_ids[i]);
            other_users.push(user_id);
            i += 1;
        }
        let mut j: usize = 0;
        while j < count
            invariant
                j <= count,
                count == other_users_in_group_ids.len(),
                this_users@ == other_users_in_group_ids@ + repeated(user_id, j as nat),
                other_users@ == repeated(user_id, count as nat) + other_users_in_group_ids@.take(
                    j as int,
                ),
            decreases count - j,
        {
            this_users.push(user_id);
            other_users.push(other_users_in_group_ids[j]);
            j += 1;
        }
        Some(Query::InsertLedgerRows { group_id, this_users, other_users })
    }
}

impl LedgerHandler for Handler {}

/// The unit of work in which one balance is read.
#[derive(Clone, Copy, PartialEq, Eq, Debug, Structural)]
pub struct BalanceLookup {
    pub finished: bool,
}

impl BalanceLookup {
    /// Whether the unit of work, given `reply`, goes on as `after` and asks
    /// for `step`.
    pub open spec fn steps(self, reply: Reply, after: BalanceLookup, step: Step<i64>) -> bool {
        &&& after.finished
        &&& step == if self.finished {
            Step::Abort(Error::StorageUnavailable)
        } else {
            match reply {
                Reply::Amount(amount) => Step::Done(amount),
                Reply::NoRow => Step::Abort(Error::NotFound),
                _ => Step::Abort(Error::StorageUnavailable),
            }
        }
    }

    /// The unit of work that reads what `this_user` is owed by `other_user`
    /// in `group_id`, and its first step: the statement that reads it.
    pub fn start(group_id: u128, this_user: u128, other_user: u128) -> (r: (
        BalanceLookup,
        Step<i64>,
    ))
        ensures
            !r.0.finished,
            r.1 == Step::<i64>::Run(Query::SelectBalance { group_id, this_user, other_user }),
    {
        (
            BalanceLookup { finished: false },
            Step::Run(Query::SelectBalance { group_id, this_user, other_user }),
        )
    }

    /// Takes the store's answer to the last statement and says what to do
    /// next.
    pub fn advance(&mut self, reply: Reply) -> (step: Step<i64>)
        ensures
            old(self).steps(reply, *final(self), step),
    {
        let finished = self.finished;
        self.finished = true;
        if finished {
            return Step::Abort(Error::StorageUnavailable);
        }
        match reply {
            Reply::Amount(amount) => Step::Done(amount),
            Reply::NoRow => Step::Abort(Error::NotFound),
            _ => Step::Abort(Error::StorageUnavailable),
        }
    }
}

/// What `this_user` is owed by `other_user` in `group_id`: a negative amount
/// is what `this_user` owes. There is a balance between any two distinct
/// members of a group.
pub fn get_balance(ctx: &mut Store, group_id: u128, this_user: u128, other_user: u128) -> (result:
    Result<i64, Error>)
    requires
        old(ctx)@.valid(),
    ensures
        final(ctx)@ == old(ctx)@,
        match result {
            Ok(amount) => {
                &&& old(ctx)@.has_balance(group_id, this_user, other_user)
                &&& amount == old(ctx)@.balance(group_id, this_user, other_user)
            },
            Err(error) => {
                &&& error == Error::NotFound
                &&& !old(ctx)@.has_balance(group_id, this_user, other_user)
            },
        },
{
    let (mut job, step) = BalanceLookup::start(group_id, this_user, other_user);
    match step {
        Step::Run(query) => {
            let reply = ctx.execute(query);
            match job.advance(reply) {
                Step::Done(amount) => Ok(amount),
                Step::Abort(error) => Err(error),
                Step::Run(_) => Err(Error::NotFound),
            }
        },
        Step::Done(amount) => Ok(amount),
        Step::Abort(error) => Err(error),
    }
}

} // verus!
