use crate::dto::group::Group;
use crate::error::Error;
use crate::transactions::{AckStatus, TxMetadata, TxType};
use vstd::prelude::*;
use vstd::string::StringExecFns;

verus! {

/// A rule of the relations that a write can break.
#[derive(Clone, Copy, PartialEq, Eq, Debug, Structural)]
pub enum Constraint {
    /// No two groups have the same name.
    GroupName,
    /// A membership names a user that exists.
    MembershipUser,
    /// A membership names a group that exists.
    MembershipGroup,
    /// A user belongs to a group at most once.
    MembershipPair,
    /// A group has at most one balance for each ordered pair of users.
    LedgerPair,
}

impl Constraint {
    /// The name under which the durable store reports the constraint.
    pub open spec fn spec_name(self) -> Seq<char> {
        match self {
            Constraint::GroupName => "groups_name_key"@,
            Constraint::MembershipUser => "user_groups_user_id_fkey"@,
            Constraint::MembershipGroup => "user_groups_group_id_fkey"@,
            Constraint::MembershipPair => "user_groups_group_id_user_id_key"@,
            Constraint::LedgerPair => "ledgers_group_id_this_user_other_user_key"@,
        }
    }

    /// The name under which the durable store reports the constraint.
    pub fn name(self) -> (r: &'static str)
        ensures
            r@ == self.spec_name(),
    {
        match self {
            Constraint::GroupName => "groups_name_key",
            Constraint::MembershipUser => "user_groups_user_id_fkey",
            Constraint::MembershipGroup => "user_groups_group_id_fkey",
            Constraint::MembershipPair => "user_groups_group_id_user_id_key",
            Constraint::LedgerPair => "ledgers_group_id_this_user_other_user_key",
        }
    }

    /// The constraint that the durable store reports under `name`, if any.
    pub fn from_name(name: &str) -> (r: Option<Constraint>)
        ensures
            match r {
                Some(c) => c.spec_name() == name@,
                None => forall|c: Constraint| c.spec_name() != name@,
            },
    {
        let given = String::from_str(name);
        if given == String::from_str(Constraint::GroupName.name()) {
            Some(Constraint::GroupName)
        } else if given == String::from_str(Constraint::MembershipUser.name()) {
            Some(Constraint::MembershipUser)
        } else if given == String::from_str(Constraint::MembershipGroup.name()) {
            Some(Constraint::MembershipGroup)
        } else if given == String::from_str(Constraint::MembershipPair.name()) {
            Some(Constraint::MembershipPair)
        } else if given == String::from_str(Constraint::LedgerPair.name()) {
            Some(Constraint::LedgerPair)
        } else {
            None
        }
    }
}

/// One statement that a unit of work sends to the store.
#[derive(Debug)]
pub enum Query {
    /// Add a group with this name; the store gives it an id.
    InsertGroup { name: String },
    /// Add the row that makes `user_id` a member of `group_id`; the store
    /// gives it an id.
    InsertMembership { user_id: u128, group_id: u128 },
    /// List the users of `group_id`.
    SelectMembers { group_id: u128 },
    /// Add, for each position of the two arrays, the zero balance of
    /// `this_users[i]` against `other_users[i]` in `group_id`: all of them or
    /// none.
    InsertLedgerRows { group_id: u128, this_users: Vec<u128>, other_users: Vec<u128> },
    /// Add a transaction; the store gives it an id.
    InsertTransaction {
        payer_id: u128,
        payee_id: u128,
        group_id: u128,
        amount: i64,
        tx_type: TxType,
        ack_status: AckStatus,
        metadata: TxMetadata,
    },
    /// Raise the balance of `payer_id` against `payee_id` in `group_id` by
    /// `amount` and lower the mirrored balance by as much.
    AdjustBalances { group_id: u128, payer_id: u128, payee_id: u128, amount: i64 },
    /// Read the balance of `this_user` against `other_user` in `group_id`.
    SelectBalance { group_id: u128, this_user: u128, other_user: u128 },
    /// List the groups that `user_id` belongs to.
    SelectGroups { user_id: u128 },
    /// Read the name of `group_id`.
    SelectGroupName { group_id: u128 },
    /// Give `group_id` the name, or keep the name it has where none is given,
    /// and read the name back.
    UpdateGroupName { group_id: u128, new_name: Option<String> },
}

/// What the store answers to one statement.
#[derive(Debug)]
pub enum Reply {
    /// The id of the row that was inserted.
    Id(u128),
    /// The users that were listed; `None` stands for a row that could not be read.
    Members(Vec<Option<u128>>),
    /// The groups that were listed; `None` stands for a row that could not be read.
    Groups(Vec<Option<Group>>),
    /// The rows were written.
    Written,
    /// The number of rows that the statement matched.
    Affected(u64),
    /// The amount that was read.
    Amount(i64),
    /// The name that was read.
    Name(String),
    /// The statement found no row.
    NoRow,
    /// The statement would have broken a constraint, and wrote nothing.
    Violation(Constraint),
    /// The statement would have led to an amount beyond 64 bits, and wrote nothing.
    OutOfRange,
    /// What the statement was to write could not be put into the form in
    /// which the store keeps it, and nothing was written.
    Unencodable,
    /// The store could not carry the statement out.
    Failed,
}

/// What a unit of work does next.
#[derive(Debug)]
pub enum Step<T> {
    /// Send this statement, and come back with the answer.
    Run(Query),
    /// Make what was written lasting; the unit of work ends with this result.
    Done(T),
    /// Undo what was written; the unit of work ends with this error.
    Abort(Error),
}

} // verus!
