use crate::dto::group::{Group, GroupView};
use crate::dto::user::AuthUser;
use crate::error::Error;
use crate::laws::{law_join_starts_at_zero, lemma_join_finds_no_rows, Call};
use crate::laws::lemma_join_keeps_consistent;
use crate::logic::ledger;
use crate::logic::ledger::{other_side, pair_rows, this_side};
use crate::protocol::{Constraint, Query, Reply, Step};
use crate::store::memory::Store;
use crate::store::model::{lemma_members_of, lemma_members_of_distinct, lemma_members_of_push};
use crate::store::model::lemma_same_tables;
use crate::store::model::{pairs_distinct, Membership, State};
use crate::store::statements::lemma_statement_keeps_valid;
use vstd::prelude::*;

verus! {

/// Whether every row of a listing could be read.
pub open spec fn all_read<T>(rows: Seq<Option<T>>) -> bool {
    forall|i: int| 0 <= i < rows.len() ==> (#[trigger] rows[i]) is Some
}

/// The rows of a listing of which every row could be read.
pub open spec fn read<T>(rows: Seq<Option<T>>) -> Seq<T> {
    rows.map_values(|row: Option<T>| row->0)
}

/// `users` without `user_id`, in the same order.
pub open spec fn without(users: Seq<u128>, user_id: u128) -> Seq<u128> {
    users.filter(|other: u128| other != user_id)
}

/// One more user after the others is kept, unless it is the user to leave
/// out.
pub proof fn lemma_without_push(users: Seq<u128>, last: u128, user_id: u128)
    ensures
        without(users.push(last), user_id) == if last == user_id {
            without(users, user_id)
        } else {
            without(users, user_id).push(last)
        },
{
    reveal_with_fuel(Seq::filter, 2);
    assert(users.push(last).drop_last() =~= users);
}

/// Taking out a user that is not listed changes nothing.
pub proof fn lemma_without_absent(users: Seq<u128>, user_id: u128)
    requires
        !users.contains(user_id),
    ensures
        without(users, user_id) == users,
    decreases users.len(),
{
    if users.len() > 0 {
        let before = users.drop_last();
        lemma_without_absent(before, user_id);
        assert(before.push(users.last()) =~= users);
        lemma_without_push(before, users.last(), user_id);
    } else {
        reveal_with_fuel(Seq::filter, 1);
    }
}

/// The users of a listing, or `None` where a row could not be read.
pub fn read_rows(rows: &Vec<Option<u128>>) -> (users: Option<Vec<u128>>)
    ensures
        users is Some <==> all_read(rows@),
        users matches Some(users) ==> users@ == read(rows@),
{
    let mut users: Vec<u128> = Vec::new();
    let mut i: usize = 0;
    while i < rows.len()
        invariant
            i <= rows.len(),
            all_read(rows@.take(i as int)),
            users@ == read(rows@.take(i as int)),
        decreases rows.len() - i,
    {
        match rows[i] {
            Some(user_id) => {
                users.push(user_id);
            },
            None => {
                return None;
            },
        }
        i += 1;
    }
    assert(rows@.take(i as int) =~= rows@);
    Some(users)
}

/// The members of a group other than `user_id`.
pub fn others(members: &Vec<u128>, user_id: u128) -> (others: Vec<u128>)
    ensures
        others@ == without(members@, user_id),
{
    let mut others: Vec<u128> = Vec::new();
    let mut i: usize = 0;
    while i < members.len()
        invariant
            i <= members.len(),
            others@ == without(members@.take(i as int), user_id),
        decreases members.len() - i,
    {
        proof {
            assert(members@.take(i + 1) =~= members@.take(i as int).push(members@[i as int]));
            lemma_without_push(members@.take(i as int), members@[i as int], user_id);
        }
        if members[i] != user_id {
            others.push(members[i]);
        }
        i += 1;
    }
    assert(members@.take(i as int) =~= members@);
    others
}

/// Whether `user_id` is among `members`.
pub fn is_listed(members: &Vec<u128>, user_id: u128) -> (listed: bool)
    ensures
        listed == members@.contains(user_id),
{
    let mut i: usize = 0;
    while i < members.len()
        invariant
            i <= members.len(),
            forall|k: int| 0 <= k < i ==> members@[k] != user_id,
        decreases members.len() - i,
    {
        if members[i] == user_id {
            return true;
        }
        i += 1;
    }
    false
}

/// Why the store did not add a membership.
pub open spec fn membership_refusal(reply: Reply) -> Error {
    match reply {
        Reply::Violation(Constraint::MembershipUser) => Error::UnknownUser,
        Reply::Violation(Constraint::MembershipGroup) => Error::UnknownGroup,
        Reply::Violation(Constraint::MembershipPair) => Error::DuplicateMembership,
        _ => Error::StorageUnavailable,
    }
}

/// How far a user's joining of a group has come.
#[derive(Clone, Copy, PartialEq, Eq, Debug, Structural)]
pub enum JoinStage {
    /// The membership is being added.
    Inserting,
    /// The membership has this id, and the members are being listed.
    Listing { membership_id: u128 },
    /// The balances against the other members are being added.
    Initialising { membership_id: u128 },
    /// Nothing is left to do.
    Finished,
}

/// The unit of work in which a user joins a group: the membership is added,
/// the members are listed, and the new member gets a zero balance against
/// each of the others, and each of them one against the new member.
#[derive(Clone, Copy, PartialEq, Eq, Debug, Structural)]
pub struct Join {
    pub group_id: u128,
    pub user_id: u128,
    /// What says which balances a new member needs.
    pub ledger_handler: ledger::Handler,
    pub stage: JoinStage,
}

impl Join {
    /// How many answers the unit of work may still ask for.
    pub open spec fn rank(self) -> nat {
        match self.stage {
            JoinStage::Inserting => 3,
            JoinStage::Listing { .. } => 2,
            JoinStage::Initialising { .. } => 1,
            JoinStage::Finished => 0,
        }
    }

    /// The id of the membership, once the store has given it.
    pub open spec fn membership_id(self) -> u128 {
        match self.stage {
            JoinStage::Listing { membership_id } => membership_id,
            JoinStage::Initialising { membership_id } => membership_id,
            _ => 0,
        }
    }

    /// Whether `query` is the statement that adds the membership.
    pub open spec fn opens_with(self, query: Query) -> bool {
        &&& query matches Query::InsertMembership { user_id, group_id }
        &&& user_id == self.user_id
        &&& group_id == self.group_id
    }

    /// Whether `query` is the statement that adds the balances of the new
    /// member against `others`.
    pub open spec fn initialises(self, query: Query, others: Seq<u128>) -> bool {
        &&& query matches Query::InsertLedgerRows { group_id, this_users, other_users }
        &&& group_id == self.group_id
        &&& this_users@ == this_side(others, self.user_id)
        &&& other_users@ == other_side(others, self.user_id)
    }

    /// Whether the unit of work, given `reply`, goes on as `after` and asks
    /// for `step`.
    pub open spec fn steps(self, reply: Reply, after: Join, step: Step<u128>) -> bool {
        &&& after.group_id == self.group_id
        &&& after.user_id == self.user_id
        &&& after.ledger_handler == self.ledger_handler
        &&& match self.stage {
            JoinStage::Inserting => match reply {
                Reply::Id(membership_id) => {
                    &&& after.stage == JoinStage::Listing { membership_id }
                    &&& step matches Step::Run(Query::SelectMembers { group_id })
                    &&& group_id == self.group_id
                },
                _ => after.stage == JoinStage::Finished && step == Step::<u128>::Abort(
                    membership_refusal(reply),
                ),
            },
            JoinStage::Listing { membership_id } => match reply {
                Reply::Members(rows) => if all_read(rows@) {
                    let others = without(read(rows@), self.user_id);
                    if others.len() == 0 {
                        after.stage == JoinStage::Finished && step == Step::Done(membership_id)
                    } else {
                        &&& after.stage == JoinStage::Initialising { membership_id }
                        &&& step matches Step::Run(query)
                        &&& self.initialises(query, others)
                    }
                } else {
                    after.stage == JoinStage::Finished && step == Step::<u128>::Abort(
                        Error::StorageUnavailable,
                    )
                },
                _ => after.stage == JoinStage::Finished && step == Step::<u128>::Abort(
                    Error::StorageUnavailable,
                ),
            },
            JoinStage::Initialising { membership_id } => {
                &&& after.stage == JoinStage::Finished
                &&& step == match reply {
                    Reply::Written => Step::Done(membership_id),
                    Reply::Violation(Constraint::LedgerPair) => Step::Abort(Error::LedgerRowExists),
                    _ => Step::Abort(Error::StorageUnavailable),
                }
            },
            JoinStage::Finished => after.stage == JoinStage::Finished && step == Step::<u128>::Abort(
                Error::StorageUnavailable,
            ),
        }
    }

    /// The unit of work in which `user_id` joins `group_id`, and its first
    /// step: the statement that adds the membership.
    pub fn start(group_id: u128, user_id: u128, ledger_handler: ledger::Handler) -> (r: (
        Join,
        Step<u128>,
    ))
        ensures
            r.0 == (Join { group_id, user_id, ledger_handler, stage: JoinStage::Inserting }),
            r.1 matches Step::Run(query) && r.0.opens_with(query),
    {
        (
            Join { group_id, user_id, ledger_handler, stage: JoinStage::Inserting },
            Step::Run(Query::InsertMembership { user_id, group_id }),
        )
    }

    /// Takes the store's answer to the last statement and says what to do
    /// next.
    pub fn advance(&mut self, reply: Reply) -> (step: Step<u128>)
        ensures
            old(self).steps(reply, *final(self), step),
    {
        let stage = self.stage;
        self.stage = JoinStage::Finished;
        match stage {
            JoinStage::Inserting => match reply {
                Reply::Id(membership_id) => {
                    self.stage = JoinStage::Listing { membership_id };
                    Step::Run(Query::SelectMembers { group_id: self.group_id })
                },
                Reply::Violation(Constraint::MembershipUser) => Step::Abort(Error::UnknownUser),
                Reply::Violation(Constraint::MembershipGroup) => Step::Abort(Error::UnknownGroup),
                Reply::Violation(Constraint::MembershipPair) => Step::Abort(
                    Error::DuplicateMembership,
                ),
                _ => Step::Abort(Error::StorageUnavailable),
            },
            JoinStage::Listing { membership_id } => match reply {
                Reply::Members(rows) => match read_rows(&rows) {
                    Some(members) => {
                        let others = others(&members, self.user_id);
                        match self.ledger_handler.init_ledger_entries(
                            self.group_id,
                            self.user_id,
                            others,
                        ) {
                            Some(query) => {
                                self.stage = JoinStage::Initialising { membership_id };
                                Step::Run(query)
                            },
                            None => Step::Done(membership_id),
                        }
                    },
                    None => Step::Abort(Error::StorageUnavailable),
                },
                _ => Step::Abort(Error::StorageUnavailable),
            },
            JoinStage::Initialising { membership_id } => match reply {
                Reply::Written => Step::Done(membership_id),
                Reply::Violation(Constraint::LedgerPair) => Step::Abort(Error::LedgerRowExists),
                _ => Step::Abort(Error::StorageUnavailable),
            },
            JoinStage::Finished => Step::Abort(Error::StorageUnavailable),
        }
    }
}

impl State {
    /// Why `user_id` cannot join `group_id` in this state, or `None` where
    /// the user can.
    pub open spec fn join_refusal(self, group_id: u128, user_id: u128) -> Option<Error> {
        if !self.has_user(user_id) {
            Some(Error::UnknownUser)
        } else if !self.has_group(group_id) {
            Some(Error::UnknownGroup)
        } else if self.is_member(group_id, user_id) {
            Some(Error::DuplicateMembership)
        } else if self.next_id == u128::MAX {
            Some(Error::StorageUnavailable)
        } else if !pairs_distinct(self.ledger + pair_rows(group_id, user_id, self.members(group_id))) {
            Some(Error::LedgerRowExists)
        } else {
            None
        }
    }

    /// The state after `user_id` has joined `group_id`: one more membership,
    /// and a zero balance in both directions between the new member and each
    /// of the members that were there.
    pub open spec fn joined_by(self, group_id: u128, user_id: u128) -> State {
        self.with_membership(user_id, group_id).with_ledger_rows(
            pair_rows(group_id, user_id, self.members(group_id)),
        )
    }
}

impl Join {
    /// Whether the unit of work, about to do `step`, is where it should be:
    /// `base` is the state in which it began and `now` the state of the store.
    pub open spec fn tracks(self, step: Step<u128>, base: State, now: State) -> bool {
        let inserted = base.with_membership(self.user_id, self.group_id);
        let others = base.members(self.group_id);
        match self.stage {
            JoinStage::Inserting => {
                &&& now == base
                &&& step matches Step::Run(query)
                &&& self.opens_with(query)
            },
            JoinStage::Listing { membership_id } => {
                &&& base.insert_membership(self.user_id, self.group_id).0 == Reply::Id(membership_id)
                &&& now == inserted
                &&& step matches Step::Run(Query::SelectMembers { group_id })
                &&& group_id == self.group_id
            },
            JoinStage::Initialising { membership_id } => {
                &&& base.insert_membership(self.user_id, self.group_id).0 == Reply::Id(membership_id)
                &&& now == inserted
                &&& others.len() > 0
                &&& step matches Step::Run(query)
                &&& self.initialises(query, others)
            },
            JoinStage::Finished => match step {
                Step::Run(_) => false,
                Step::Done(membership_id) => {
                    &&& base.join_refusal(self.group_id, self.user_id) is None
                    &&& membership_id == base.next_id
                    &&& now == base.joined_by(self.group_id, self.user_id)
                },
                Step::Abort(error) => {
                    &&& base.join_refusal(self.group_id, self.user_id) == Some(error)
                    &&& (now == base || now == inserted)
                },
            },
        }
    }
}

/// A store that answers as the relations prescribe keeps a joining on its
/// way: whatever the stage, after one more statement and its answer the unit
/// of work is again where it should be.
pub proof fn lemma_join_stays_on_track(
    job: Join,
    step: Step<u128>,
    base: State,
    now: State,
    reply: Reply,
    then: State,
    next_job: Join,
    next_step: Step<u128>,
)
    requires
        base.valid(),
        job.tracks(step, base, now),
        (step matches Step::Run(query) && now.answers(query, reply, then)),
        job.steps(reply, next_job, next_step),
    ensures
        next_job.tracks(next_step, base, then),
        next_job.rank() < job.rank(),
{
    if job.stage is Listing {
        let group_id = job.group_id;
        let user_id = job.user_id;
        let before = base.members(group_id);
        let rows = reply->Members_0;
        lemma_members_of_push(
            base.memberships,
            Membership { id: base.next_id, group_id, user_id },
            group_id,
        );
        lemma_members_of(base.memberships, group_id, user_id);
        lemma_without_absent(before, user_id);
        lemma_without_push(before, user_id, user_id);
        assert(read(rows@) =~= before.push(user_id));
    }
}

/// How far the creation of a group has come.
#[derive(Clone, Copy, PartialEq, Eq, Debug, Structural)]
pub enum CreationStage {
    /// The group is being added.
    Inserting,
    /// The group has this id, and its owner is joining it.
    Joining { group_id: u128, join: Join },
    /// Nothing is left to do.
    Finished,
}

/// The unit of work in which a group is created and its owner becomes its
/// first member.
#[derive(Debug)]
pub struct GroupCreation {
    pub name: String,
    pub owner: u128,
    /// What says which balances a new member needs.
    pub ledger_handler: ledger::Handler,
    pub stage: CreationStage,
}

impl GroupCreation {
    /// How many answers the unit of work may still ask for.
    pub open spec fn rank(self) -> nat {
        match self.stage {
            CreationStage::Inserting => 5,
            CreationStage::Joining { join, .. } => join.rank() + 1,
            CreationStage::Finished => 0,
        }
    }

    /// Whether `query` is the statement that adds the group.
    pub open spec fn opens_with(self, query: Query) -> bool {
        query matches Query::InsertGroup { name } && name@ == self.name@
    }

    /// Whether the unit of work, given `reply`, goes on as `after` and asks
    /// for `step`.
    pub open spec fn steps(self, reply: Reply, after: GroupCreation, step: Step<Group>) -> bool {
        &&& after.name@ == self.name@
        &&& after.owner == self.owner
        &&& after.ledger_handler == self.ledger_handler
        &&& match self.stage {
            CreationStage::Inserting => match reply {
                Reply::Id(group_id) => {
                    &&& after.stage == CreationStage::Joining {
                        group_id,
                        join: Join {
                            group_id,
                            user_id: self.owner,
                            ledger_handler: self.ledger_handler,
                            stage: JoinStage::Inserting,
                        },
                    }
                    &&& step matches Step::Run(Query::InsertMembership { user_id, group_id: joined })
                    &&& user_id == self.owner
                    &&& joined == group_id
                },
                Reply::Violation(Constraint::GroupName) => after.stage == CreationStage::Finished
                    && step == Step::<Group>::Abort(Error::GroupNameTaken),
                _ => after.stage == CreationStage::Finished && step == Step::<Group>::Abort(
                    Error::StorageUnavailable,
                ),
            },
            CreationStage::Joining { group_id, join } => match step {
                Step::Run(query) => {
                    &&& after.stage matches CreationStage::Joining { group_id: same, join: next }
                    &&& same == group_id
                    &&& join.steps(reply, next, Step::Run(query))
                },
                Step::Done(group) => {
                    &&& after.stage == CreationStage::Finished
                    &&& group@ == (GroupView { id: group_id, name: self.name@ })
                    &&& join.steps(
                        reply,
                        Join { stage: JoinStage::Finished, ..join },
                        Step::Done(join.membership_id()),
                    )
                },
                Step::Abort(error) => {
                    &&& after.stage == CreationStage::Finished
                    &&& join.steps(
                        reply,
                        Join { stage: JoinStage::Finished, ..join },
                        Step::Abort(error),
                    )
                },
            },
            CreationStage::Finished => after.stage == CreationStage::Finished && step == Step::<
                Group,
            >::Abort(Error::StorageUnavailable),
        }
    }

    /// The unit of work in which a group called `name` is created for
    /// `owner`, and its first step: the statement that adds the group.
    pub fn start(name: String, owner: AuthUser, ledger_handler: ledger::Handler) -> (r: (
        GroupCreation,
        Step<Group>,
    ))
        ensures
            r.0.name@ == name@,
            r.0.owner == owner.user_id,
            r.0.ledger_handler == ledger_handler,
            r.0.stage == CreationStage::Inserting,
            r.1 matches Step::Run(query) && r.0.opens_with(query),
    {
        let asked = name.clone();
        (
            GroupCreation {
                name,
                owner: owner.user_id,
                ledger_handler,
                stage: CreationStage::Inserting,
            },
            Step::Run(Query::InsertGroup { name: asked }),
        )
    }

    /// What the creation of the group does where the joining of its owner
    /// does `inner`: it runs the same statement, fails for the same reason,
    /// and is done with the group where the joining is done.
    fn pass_on(&self, group_id: u128, inner: Step<u128>) -> (step: Step<Group>)
        ensures
            match inner {
                Step::Run(query) => step == Step::<Group>::Run(query),
                Step::Done(_) => step matches Step::Done(group) && group@ == (GroupView {
                    id: group_id,
                    name: self.name@,
                }),
                Step::Abort(error) => step == Step::<Group>::Abort(error),
            },
    {
        match inner {
            Step::Run(query) => Step::Run(query),
            Step::Done(_) => Step::Done(Group { id: group_id, name: self.name.clone() }),
            Step::Abort(error) => Step::Abort(error),
        }
    }

    /// Takes the store's answer to the last statement and says what to do
    /// next.
    pub fn advance(&mut self, reply: Reply) -> (step: Step<Group>)
        ensures
            old(self).steps(reply, *final(self), step),
    {
        let stage = self.stage;
        self.stage = CreationStage::Finished;
        match stage {
            CreationStage::Inserting => match reply {
                Reply::Id(group_id) => {
                    let (join, first) = Join::start(group_id, self.owner, self.ledger_handler);
                    self.stage = CreationStage::Joining { group_id, join };
                    self.pass_on(group_id, first)
                },
                Reply::Violation(Constraint::GroupName) => Step::Abort(Error::GroupNameTaken),
                _ => Step::Abort(Error::StorageUnavailable),
            },
            CreationStage::Joining { group_id, join } => {
                let mut join = join;
                let inner = join.advance(reply);
                if let Step::Run(_) = &inner {
                    self.stage = CreationStage::Joining { group_id, join };
                }
                self.pass_on(group_id, inner)
            },
            CreationStage::Finished => Step::Abort(Error::StorageUnavailable),
        }
    }
}

impl State {
    /// Why a group called `name` cannot be created for `owner` in this
    /// state, or `None` where it can.
    pub open spec fn creation_refusal(self, name: Seq<char>, owner: u128) -> Option<Error> {
        if self.name_taken(name) {
            Some(Error::GroupNameTaken)
        } else if self.next_id == u128::MAX {
            Some(Error::StorageUnavailable)
        } else {
            self.with_group(name).join_refusal(self.next_id, owner)
        }
    }

    /// The state after a group called `name` was created for `owner`.
    pub open spec fn created_by(self, name: Seq<char>, owner: u128) -> State {
        self.with_group(name).joined_by(self.next_id, owner)
    }
}

impl GroupCreation {
    /// Whether the unit of work, about to do `step`, is where it should be:
    /// `base` is the state in which it began and `now` the state of the store.
    pub open spec fn tracks(self, step: Step<Group>, base: State, now: State) -> bool {
        let created = base.with_group(self.name@);
        match self.stage {
            CreationStage::Inserting => {
                &&& now == base
                &&& step matches Step::Run(query)
                &&& self.opens_with(query)
            },
            CreationStage::Joining { group_id, join } => {
                &&& base.insert_group(self.name@).0 == Reply::Id(group_id)
                &&& created.valid()
                &&& join.group_id == group_id
                &&& join.user_id == self.owner
                &&& !(join.stage is Finished)
                &&& step matches Step::Run(query)
                &&& join.tracks(Step::Run(query), created, now)
            },
            CreationStage::Finished => match step {
                Step::Run(_) => false,
                Step::Done(group) => {
                    &&& base.creation_refusal(self.name@, self.owner) is None
                    &&& created.valid()
                    &&& group@ == (GroupView { id: base.next_id, name: self.name@ })
                    &&& now == base.created_by(self.name@, self.owner)
                },
                Step::Abort(error) => {
                    &&& base.creation_refusal(self.name@, self.owner) == Some(error)
                    &&& (now == base || now == created || now == created.with_membership(
                        self.owner,
                        base.next_id,
                    ))
                },
            },
        }
    }
}

/// A store that answers as the relations prescribe keeps the creation of a
/// group on its way.
pub proof fn lemma_creation_stays_on_track(
    job: GroupCreation,
    step: Step<Group>,
    base: State,
    now: State,
    reply: Reply,
    then: State,
    next_job: GroupCreation,
    next_step: Step<Group>,
)
    requires
        base.valid(),
        now.valid(),
        job.tracks(step, base, now),
        (step matches Step::Run(query) && now.answers(query, reply, then)),
        job.steps(reply, next_job, next_step),
    ensures
        next_job.tracks(next_step, base, then),
        next_job.rank() < job.rank(),
{
    lemma_statement_keeps_valid(now, step->Run_0, reply, then);
    if job.stage is Joining {
        let join = job.stage->Joining_join;
        let created = base.with_group(job.name@);
        let finished = Join { stage: JoinStage::Finished, ..join };
        let (next, passed_on) = match next_step {
            Step::Run(query) => (next_job.stage->Joining_join, Step::Run(query)),
            Step::Done(_) => (finished, Step::Done(join.membership_id())),
            Step::Abort(error) => (finished, Step::Abort(error)),
        };
        lemma_join_stays_on_track(join, step_of(step), created, now, reply, then, next, passed_on);
    }
}

/// The step of a joining that the creation of a group passes on.
pub open spec fn step_of(step: Step<Group>) -> Step<u128> {
    match step {
        Step::Run(query) => Step::Run(query),
        Step::Done(group) => Step::Done(group.id),
        Step::Abort(error) => Step::Abort(error),
    }
}

/// The unit of work in which the members of a group are listed, for a viewer
/// who must be one of them, or for nobody in particular.
#[derive(Clone, Copy, PartialEq, Eq, Debug, Structural)]
pub struct MemberListing {
    pub group_id: u128,
    pub viewer: Option<u128>,
    pub finished: bool,
}

impl MemberListing {
    /// Whether the unit of work, given `reply`, goes on as `after` and asks
    /// for `step`.
    pub open spec fn steps(self, reply: Reply, after: MemberListing, step: Step<Vec<u128>>) -> bool {
        &&& after == (MemberListing { finished: true, ..self })
        &&& match reply {
            Reply::Members(rows) => if self.finished || !all_read(rows@) {
                step == Step::<Vec<u128>>::Abort(Error::StorageUnavailable)
            } else if self.viewer matches Some(viewer) && !read(rows@).contains(viewer) {
                step == Step::<Vec<u128>>::Abort(Error::Forbidden)
            } else {
                step matches Step::Done(users) && users@ == read(rows@)
            },
            _ => step == Step::<Vec<u128>>::Abort(Error::StorageUnavailable),
        }
    }

    /// The unit of work that lists the members of `group_id`, and its first
    /// step: the statement that lists them.
    pub fn start(group_id: u128, viewer: Option<u128>) -> (r: (MemberListing, Step<Vec<u128>>))
        ensures
            r.0 == (MemberListing { group_id, viewer, finished: false }),
            r.1 matches Step::Run(Query::SelectMembers { group_id: asked }) && asked == group_id,
    {
        (
            MemberListing { group_id, viewer, finished: false },
            Step::Run(Query::SelectMembers { group_id }),
        )
    }

    /// Takes the store's answer to the last statement and says what to do
    /// next.
    pub fn advance(&mut self, reply: Reply) -> (step: Step<Vec<u128>>)
        ensures
            old(self).steps(reply, *final(self), step),
    {
        let finished = self.finished;
        self.finished = true;
        match reply {
            Reply::Members(rows) => {
                if finished {
                    return Step::Abort(Error::StorageUnavailable);
                }
                match read_rows(&rows) {
                    Some(users) => {
                        match self.viewer {
                            Some(viewer) => {
                                if !is_listed(&users, viewer) {
                                    return Step::Abort(Error::Forbidden);
                                }
                            },
                            None => {},
                        }
                        Step::Done(users)
                    },
                    None => Step::Abort(Error::StorageUnavailable),
                }
            },
            _ => Step::Abort(Error::StorageUnavailable),
        }
    }
}

/// Lists the members of `group_id` in `ctx` for `viewer`, who must be one of
/// them where a viewer is named.
pub fn list_members(ctx: &mut Store, group_id: u128, viewer: Option<u128>) -> (result: Result<
    Vec<u128>,
    Error,
>)
    requires
        old(ctx)@.valid(),
    ensures
        final(ctx)@ == old(ctx)@,
        match result {
            Ok(users) => {
                &&& users@ == old(ctx)@.members(group_id)
                &&& users@.no_duplicates()
                &&& viewer matches Some(viewer) ==> old(ctx)@.is_member(group_id, viewer)
            },
            Err(error) => {
                &&& error == Error::Forbidden
                &&& viewer matches Some(viewer) && !old(ctx)@.is_member(group_id, viewer)
            },
        },
{
    let (mut job, step) = MemberListing::start(group_id, viewer);
    proof {
        if viewer is Some {
            lemma_members_of(ctx@.memberships, group_id, viewer->0);
        }
        lemma_members_of_distinct(ctx@.memberships, group_id);
    }
    match step {
        Step::Run(query) => {
            let reply = ctx.execute(query);
            proof {
                let rows = reply->Members_0;
                assert(read(rows@) =~= ctx@.members(group_id));
            }
            match job.advance(reply) {
                Step::Done(users) => Ok(users),
                Step::Abort(error) => Err(error),
                Step::Run(_) => Err(Error::Forbidden),
            }
        },
        Step::Done(users) => Ok(users),
        Step::Abort(error) => Err(error),
    }
}

/// What creates groups, adds users to groups and lists the users of a
/// group. Each of the three is one unit of work on the store behind the
/// handler: it leaves the store valid, and where it fails, as it was.
pub trait GroupsHandler {
    /// The state of the store behind the handler.
    spec fn state(&self) -> State;

    /// Creates a group called `group_name` and makes `owner` its first
    /// member.
    fn create_group(&mut self, group_name: String, owner: AuthUser) -> (result: Result<Group, Error>)
        requires
            old(self).state().valid(),
        ensures
            final(self).state().valid(),
            old(self).state().consistent() ==> final(self).state().consistent(),
            final(self).state() == old(self).state().after(
                Call::CreateGroup { name: group_name@, owner: owner.user_id },
            ),
            match result {
                Ok(group) => {
                    &&& old(self).state().creation_refusal(group_name@, owner.user_id) is None
                    &&& group@ == (GroupView { id: old(self).state().next_id, name: group_name@ })
                    &&& final(self).state() == old(self).state().created_by(
                        group_name@,
                        owner.user_id,
                    )
                },
                Err(error) => {
                    &&& old(self).state().creation_refusal(group_name@, owner.user_id) == Some(
                        error,
                    )
                    &&& final(self).state() == old(self).state()
                },
            },
    ;

    /// Makes `user` a member of `group` and gives the new member a zero
    /// balance against every member that was there, and each of them one
    /// against the new member.
    fn add_user_to_group(&mut self, user: &AuthUser, group: &Group) -> (result: Result<u128, Error>)
        requires
            old(self).state().valid(),
        ensures
            final(self).state().valid(),
            old(self).state().consistent() ==> final(self).state().consistent(),
            old(self).state().consistent() ==> !(result matches Err(Error::LedgerRowExists)),
            final(self).state() == old(self).state().after(
                Call::Join { group_id: group.id, user_id: user.user_id },
            ),
            result is Ok ==> forall|member: u128|
                #![trigger old(self).state().members(group.id).contains(member)]
                old(self).state().members(group.id).contains(member) ==> {
                    &&& final(self).state().balance(group.id, user.user_id, member) == 0
                    &&& final(self).state().balance(group.id, member, user.user_id) == 0
                },
            match result {
                Ok(membership_id) => {
                    &&& old(self).state().join_refusal(group.id, user.user_id) is None
                    &&& membership_id == old(self).state().next_id
                    &&& final(self).state() == old(self).state().joined_by(group.id, user.user_id)
                },
                Err(error) => {
                    &&& old(self).state().join_refusal(group.id, user.user_id) == Some(error)
                    &&& final(self).state() == old(self).state()
                },
            },
    ;

    /// The users of `group_id`, in the order in which they joined.
    fn get_users_by_group(&mut self, group_id: &u128) -> (result: Result<Vec<u128>, Error>)
        requires
            old(self).state().valid(),
        ensures
            final(self).state() == old(self).state(),
            result matches Ok(users) && users@ == old(self).state().members(*group_id),
    ;
}

/// Creates groups, adds users to groups, and lists the users of a group, on
/// a store held in memory.
pub struct Handler {
    pub db: Store,
    pub ledger_handler: ledger::Handler,
}

impl Handler {
    pub fn new(db: Store, ledger_handler: ledger::Handler) -> (handler: Self)
        ensures
            handler.db == db,
    {
        Self { db, ledger_handler }
    }
}

impl GroupsHandler for Handler {
    open spec fn state(&self) -> State {
        self.db@
    }

    /// Creates a group called `group_name` and makes `owner` its first
    /// member, in one unit of work: where it fails, the store is as it was.
    fn create_group(&mut self, group_name: String, owner: AuthUser) -> (result: Result<
        Group,
        Error,
    >)
        ensures
            final(self).ledger_handler == old(self).ledger_handler,
    {
        let ghost base = self.db@;
        let savepoint = self.db.savepoint();
        let (mut job, mut step) = GroupCreation::start(group_name, owner, self.ledger_handler);
        loop
            invariant
                base == old(self).db@,
                base.valid(),
                self.db@.valid(),
                savepoint.marks(base),
                job.name@ == group_name@,
                job.owner == owner.user_id,
                self.ledger_handler == old(self).ledger_handler,
                job.tracks(step, base, self.db@),
            decreases job.rank(), (step is Run) as int,
        {
            match step {
                Step::Run(query) => {
                    let ghost now = self.db@;
                    let ghost was = job;
                    let ghost asked = step;
                    let reply = self.db.execute(query);
                    step = job.advance(reply);
                    proof {
                        lemma_creation_stays_on_track(
                            was,
                            asked,
                            base,
                            now,
                            reply,
                            self.db@,
                            job,
                            step,
                        );
                    }
                },
                Step::Done(group) => {
                    proof {
                        if base.consistent() {
                            let created = base.with_group(group_name@);
                            lemma_same_tables(base, created);
                            lemma_join_keeps_consistent(created, base.next_id, owner.user_id);
                        }
                    }
                    return Ok(group);
                },
                Step::Abort(error) => {
                    self.db.rollback(&savepoint);
                    proof {
                        assert(self.db@ =~= base);
                    }
                    return Err(error);
                },
            }
        }
    }

    /// Makes `user_id` a member of `group_id` and gives the new member a
    /// zero balance against every member that was there, in one unit of work:
    /// where it fails, the store is as it was.
    fn add_user_to_group(&mut self, user: &AuthUser, group: &Group) -> (result: Result<
        u128,
        Error,
    >)
        ensures
            final(self).ledger_handler == old(self).ledger_handler,
    {
        let ghost base = self.db@;
        let savepoint = self.db.savepoint();
        let (mut job, mut step) = Join::start(group.id, user.user_id, self.ledger_handler);
        loop
            invariant
                base == old(self).db@,
                base.valid(),
                self.db@.valid(),
                savepoint.marks(base),
                job.group_id == group.id,
                job.user_id == user.user_id,
                self.ledger_handler == old(self).ledger_handler,
                job.tracks(step, base, self.db@),
            decreases job.rank(), (step is Run) as int,
        {
            match step {
                Step::Run(query) => {
                    let ghost now = self.db@;
                    let ghost was = job;
                    let ghost asked = step;
                    let reply = self.db.execute(query);
                    step = job.advance(reply);
                    proof {
                        lemma_join_stays_on_track(was, asked, base, now, reply, self.db@, job, step);
                    }
                },
                Step::Done(membership_id) => {
                    proof {
                        if base.consistent() {
                            lemma_join_keeps_consistent(base, group.id, user.user_id);
                        }
                        assert forall|member: u128|
                            #![trigger base.members(group.id).contains(member)]
                            base.members(group.id).contains(member) implies {
                            &&& self.db@.balance(group.id, user.user_id, member) == 0
                            &&& self.db@.balance(group.id, member, user.user_id) == 0
                        } by {
                            law_join_starts_at_zero(base, group.id, user.user_id, member);
                        }
                    }
                    return Ok(membership_id);
                },
                Step::Abort(error) => {
                    self.db.rollback(&savepoint);
                    proof {
                        assert(self.db@ =~= base);
                        if base.consistent() && !base.is_member(group.id, user.user_id) {
                            lemma_join_finds_no_rows(base, group.id, user.user_id);
                        }
                    }
                    return Err(error);
                },
            }
        }
    }

    /// The users of `group_id`, in the order in which they joined.
    fn get_users_by_group(&mut self, group_id: &u128) -> (result: Result<Vec<u128>, Error>)
        ensures
            final(self).ledger_handler == old(self).ledger_handler,
    {
        list_members(&mut self.db, *group_id, None)
    }
}

} // verus!
