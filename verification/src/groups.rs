use crate::commons::{is_nil, parse_uuid, uuid_from_str};
use crate::dto::group::{Group, GroupBody, GroupView, NewGroup, UpdateGroup};
use crate::dto::user::{AuthUser, UserBody};
use crate::error::Error;
use crate::laws::Call;
use crate::logic::group::{all_read, list_members, read, GroupsHandler};
use crate::protocol::{Constraint, Query, Reply, Step};
use crate::store::memory::Store;
use crate::store::model::{joined, lemma_same_tables, Membership, State};
use crate::store::statements::{group_rows, group_with, groups_of, lemma_groups_of_push};
use vstd::prelude::*;

verus! {

/// What a list of groups is in contracts.
pub open spec fn group_views(groups: Seq<Group>) -> Seq<GroupView> {
    groups.map_values(|group: Group| group@)
}

/// Whether one of `groups` has the id `group_id`.
pub open spec fn lists_group(groups: Seq<GroupView>, group_id: u128) -> bool {
    exists|i: int| 0 <= i < groups.len() && (#[trigger] groups[i]).id == group_id
}

/// The groups of a listing, or `None` where a row could not be read.
pub fn read_groups(rows: &Vec<Option<Group>>) -> (groups: Option<Vec<Group>>)
    ensures
        groups is Some <==> all_read(rows@),
        groups matches Some(groups) ==> group_views(groups@) == read(group_rows(rows@)),
{
    let mut groups: Vec<Group> = Vec::new();
    let mut i: usize = 0;
    while i < rows.len()
        invariant
            i <= rows.len(),
            all_read(rows@.take(i as int)),
            group_views(groups@) == read(group_rows(rows@.take(i as int))),
        decreases rows.len() - i,
    {
        match &rows[i] {
            Some(group) => {
                let ghost listed = groups@;
                let copy = Group { id: group.id, name: group.name.clone() };
                groups.push(copy);
                proof {
                    let wanted = read(group_rows(rows@.take(i + 1)));
                    let so_far = read(group_rows(rows@.take(i as int)));
                    assert(so_far.len() == i);
                    assert forall|k: int| 0 <= k < i + 1 implies group_views(groups@)[k]
                        == wanted[k] by {
                        if k < i {
                            assert(group_views(listed)[k] == so_far[k]);
                        }
                    }
                }
            },
            None => {
                return None;
            },
        }
        i += 1;
    }
    assert(rows@.take(i as int) =~= rows@);
    Some(groups)
}

/// Whether one of `groups` has the id `group_id`.
pub fn has_group(groups: &Vec<Group>, group_id: u128) -> (found: bool)
    ensures
        found == lists_group(group_views(groups@), group_id),
{
    let mut i: usize = 0;
    while i < groups.len()
        invariant
            i <= groups.len(),
            forall|k: int| 0 <= k < i ==> (#[trigger] group_views(groups@)[k]).id != group_id,
        decreases groups.len() - i,
    {
        if groups[i].id == group_id {
            assert(group_views(groups@)[i as int].id == group_id);
            return true;
        }
        i += 1;
    }
    false
}

/// Where every membership names a group that exists, the groups of a user
/// are the groups that the user has joined.
pub proof fn lemma_groups_of(
    memberships: Seq<Membership>,
    groups: Seq<GroupView>,
    user_id: u128,
    group_id: u128,
)
    requires
        forall|i: int|
            0 <= i < memberships.len() ==> lists_group(groups, (#[trigger] memberships[i]).group_id),
    ensures
        lists_group(groups_of(memberships, groups, user_id), group_id) <==> joined(
            memberships,
            group_id,
            user_id,
        ),
    decreases memberships.len(),
{
    if memberships.len() > 0 {
        let before = memberships.drop_last();
        let last = memberships.last();
        let listed = groups_of(memberships, groups, user_id);
        let listed_before = groups_of(before, groups, user_id);
        lemma_groups_of(before, groups, user_id, group_id);
        assert(before.push(last) =~= memberships);
        lemma_groups_of_push(before, last, groups, user_id);
        if joined(memberships, group_id, user_id) {
            let i = choose|i: int|
                0 <= i < memberships.len() && (#[trigger] memberships[i]).joins(group_id, user_id);
            if i < before.len() {
                let k = choose|k: int|
                    0 <= k < listed_before.len() && (#[trigger] listed_before[k]).id == group_id;
                assert(listed[k].id == group_id);
            } else {
                assert(listed[listed.len() - 1].id == group_id);
            }
        }
    }
}

/// The unit of work in which the groups of a user are listed for the user.
#[derive(Clone, Copy, PartialEq, Eq, Debug, Structural)]
pub struct GroupListing {
    pub user_id: u128,
    pub finished: bool,
}

impl GroupListing {
    /// Whether the unit of work, given `reply`, goes on as `after` and asks
    /// for `step`.
    pub open spec fn steps(
        self,
        reply: Reply,
        after: GroupListing,
        step: Step<GroupBody<Vec<Group>>>,
    ) -> bool {
        &&& after == (GroupListing { finished: true, ..self })
        &&& match reply {
            Reply::Groups(rows) => if self.finished || !all_read(rows@) {
                step matches Step::Abort(error) && error == Error::StorageUnavailable
            } else {
                step matches Step::Done(body) && group_views(body.group@) == read(
                    group_rows(rows@),
                )
            },
            _ => step matches Step::Abort(error) && error == Error::StorageUnavailable,
        }
    }

    /// The unit of work that lists the groups of `user_id` for `auth_user`,
    /// and its first step: it ends at once where the two are not the same
    /// user, and else lists the groups.
    pub fn start(auth_user: AuthUser, user_id: u128) -> (r: (
        GroupListing,
        Step<GroupBody<Vec<Group>>>,
    ))
        ensures
            r.0 == (GroupListing { user_id, finished: auth_user.user_id != user_id }),
            if auth_user.user_id != user_id {
                r.1 matches Step::Abort(error) && error == Error::Forbidden
            } else {
                r.1 matches Step::Run(Query::SelectGroups { user_id: asked }) && asked == user_id
            },
    {
        if auth_user.user_id != user_id {
            (GroupListing { user_id, finished: true }, Step::Abort(Error::Forbidden))
        } else {
            (GroupListing { user_id, finished: false }, Step::Run(Query::SelectGroups { user_id }))
        }
    }

    /// Takes the store's answer to the last statement and says what to do
    /// next.
    pub fn advance(&mut self, reply: Reply) -> (step: Step<GroupBody<Vec<Group>>>)
        ensures
            old(self).steps(reply, *final(self), step),
    {
        let finished = self.finished;
        self.finished = true;
        match reply {
            Reply::Groups(rows) => {
                if finished {
                    return Step::Abort(Error::StorageUnavailable);
                }
                match read_groups(&rows) {
                    Some(groups) => Step::Done(GroupBody { group: groups }),
                    None => Step::Abort(Error::StorageUnavailable),
                }
            },
            _ => Step::Abort(Error::StorageUnavailable),
        }
    }
}

/// The groups that `user_id` belongs to, in the order in which the user
/// joined them: only the user may ask.
pub fn get_groups_by_user(ctx: &mut Store, auth_user: AuthUser, user_id: u128) -> (result: Result<
    GroupBody<Vec<Group>>,
    Error,
>)
    requires
        old(ctx)@.valid(),
    ensures
        final(ctx)@ == old(ctx)@,
        match result {
            Ok(body) => {
                &&& auth_user.user_id == user_id
                &&& group_views(body.group@) == groups_of(
                    old(ctx)@.memberships,
                    old(ctx)@.groups,
                    user_id,
                )
            },
            Err(error) => error == Error::Forbidden && auth_user.user_id != user_id,
        },
{
    let (mut job, step) = GroupListing::start(auth_user, user_id);
    match step {
        Step::Run(query) => {
            let reply = ctx.execute(query);
            proof {
                let rows = reply->Groups_0;
                let listed = groups_of(ctx@.memberships, ctx@.groups, user_id);
                assert(read(group_rows(rows@)) =~= listed);
                assert forall|i: int| 0 <= i < rows@.len() implies (#[trigger] rows@[i]) is Some by {
                    assert(group_rows(rows@)[i] is Some);
                }
            }
            match job.advance(reply) {
                Step::Done(body) => Ok(body),
                Step::Abort(error) => Err(error),
                Step::Run(_) => Err(Error::Forbidden),
            }
        },
        Step::Done(body) => Ok(body),
        Step::Abort(error) => Err(error),
    }
}

/// The users of `group_id`, in the order in which they joined: only a member
/// may ask.
pub fn get_users_by_group(ctx: &mut Store, auth_user: AuthUser, group_id: u128) -> (result: Result<
    UserBody<Vec<u128>>,
    Error,
>)
    requires
        old(ctx)@.valid(),
    ensures
        final(ctx)@ == old(ctx)@,
        match result {
            Ok(body) => {
                &&& old(ctx)@.is_member(group_id, auth_user.user_id)
                &&& body.user@ == old(ctx)@.members(group_id)
            },
            Err(error) => error == Error::Forbidden && !old(ctx)@.is_member(
                group_id,
                auth_user.user_id,
            ),
        },
{
    match list_members(ctx, group_id, Some(auth_user.user_id)) {
        Ok(users) => Ok(UserBody { user: users }),
        Err(error) => Err(error),
    }
}

/// How far the lookup of a group has come.
#[derive(Clone, Copy, PartialEq, Eq, Debug, Structural)]
pub enum LookupStage {
    /// The groups of the caller are being listed.
    Listing,
    /// The name of the group is being read.
    Naming,
    /// Nothing is left to do.
    Finished,
}

/// The unit of work in which a member of a group looks the group up.
#[derive(Clone, Copy, PartialEq, Eq, Debug, Structural)]
pub struct GroupLookup {
    pub group_id: u128,
    pub stage: LookupStage,
}

impl GroupLookup {
    /// Whether the unit of work, given `reply`, goes on as `after` and asks
    /// for `step`.
    pub open spec fn steps(self, reply: Reply, after: GroupLookup, step: Step<GroupBody<Group>>) -> bool {
        &&& after.group_id == self.group_id
        &&& match self.stage {
            LookupStage::Listing => match reply {
                Reply::Groups(rows) => if !all_read(rows@) {
                    &&& after.stage == LookupStage::Finished
                    &&& step matches Step::Abort(error)
                    &&& error == Error::StorageUnavailable
                } else if !lists_group(read(group_rows(rows@)), self.group_id) {
                    &&& after.stage == LookupStage::Finished
                    &&& step matches Step::Abort(error)
                    &&& error == Error::Unauthorized
                } else {
                    &&& after.stage == LookupStage::Naming
                    &&& step matches Step::Run(Query::SelectGroupName { group_id })
                    &&& group_id == self.group_id
                },
                _ => {
                    &&& after.stage == LookupStage::Finished
                    &&& step matches Step::Abort(error)
                    &&& error == Error::StorageUnavailable
                },
            },
            LookupStage::Naming => {
                &&& after.stage == LookupStage::Finished
                &&& match reply {
                    Reply::Name(name) => step matches Step::Done(body) && body.group@ == (GroupView {
                        id: self.group_id,
                        name: name@,
                    }),
                    Reply::NoRow => step matches Step::Abort(error) && error == Error::NotFound,
                    _ => step matches Step::Abort(error) && error == Error::StorageUnavailable,
                }
            },
            LookupStage::Finished => {
                &&& after.stage == LookupStage::Finished
                &&& step matches Step::Abort(error)
                &&& error == Error::StorageUnavailable
            },
        }
    }

    /// The unit of work in which `auth_user` looks up `group_id`, and its
    /// first step: it ends at once where the id is nil, and else lists the
    /// groups of the caller.
    pub fn start(auth_user: AuthUser, group_id: u128) -> (r: (GroupLookup, Step<GroupBody<Group>>))
        ensures
            r.0.group_id == group_id,
            if group_id == 0 {
                &&& r.0.stage == LookupStage::Finished
                &&& r.1 matches Step::Abort(error)
                &&& error == Error::GroupIdEmpty
            } else {
                &&& r.0.stage == LookupStage::Listing
                &&& r.1 matches Step::Run(Query::SelectGroups { user_id })
                &&& user_id == auth_user.user_id
            },
    {
        if is_nil(group_id) {
            (
                GroupLookup { group_id, stage: LookupStage::Finished },
                Step::Abort(Error::GroupIdEmpty),
            )
        } else {
            (
                GroupLookup { group_id, stage: LookupStage::Listing },
                Step::Run(Query::SelectGroups { user_id: auth_user.user_id }),
            )
        }
    }

    /// Takes the store's answer to the last statement and says what to do
    /// next.
    pub fn advance(&mut self, reply: Reply) -> (step: Step<GroupBody<Group>>)
        ensures
            old(self).steps(reply, *final(self), step),
    {
        let stage = self.stage;
        self.stage = LookupStage::Finished;
        match stage {
            LookupStage::Listing => match reply {
                Reply::Groups(rows) => match read_groups(&rows) {
                    Some(groups) => {
                        if has_group(&groups, self.group_id) {
                            self.stage = LookupStage::Naming;
                            Step::Run(Query::SelectGroupName { group_id: self.group_id })
                        } else {
                            Step::Abort(Error::Unauthorized)
                        }
                    },
                    None => Step::Abort(Error::StorageUnavailable),
                },
                _ => Step::Abort(Error::StorageUnavailable),
            },
            LookupStage::Naming => match reply {
                Reply::Name(name) => Step::Done(
                    GroupBody { group: Group { id: self.group_id, name } },
                ),
                Reply::NoRow => Step::Abort(Error::NotFound),
                _ => Step::Abort(Error::StorageUnavailable),
            },
            LookupStage::Finished => Step::Abort(Error::StorageUnavailable),
        }
    }
}

/// The group `group_id`, for a caller who belongs to it.
pub fn find_group_by_id(ctx: &mut Store, auth_user: AuthUser, group_id: u128) -> (result: Result<
    GroupBody<Group>,
    Error,
>)
    requires
        old(ctx)@.valid(),
    ensures
        final(ctx)@ == old(ctx)@,
        match result {
            Ok(body) => {
                &&& group_id != 0
                &&& old(ctx)@.is_member(group_id, auth_user.user_id)
                &&& body.group@ == group_with(old(ctx)@.groups, group_id)
            },
            Err(error) => error == if group_id == 0 {
                Error::GroupIdEmpty
            } else {
                Error::Unauthorized
            } && (group_id == 0 || !old(ctx)@.is_member(group_id, auth_user.user_id)),
        },
{
    let (mut job, step) = GroupLookup::start(auth_user, group_id);
    let query = match step {
        Step::Run(query) => query,
        Step::Done(body) => {
            return Ok(body);
        },
        Step::Abort(error) => {
            return Err(error);
        },
    };
    let reply = ctx.execute(query);
    proof {
        let state = ctx@;
        let rows = reply->Groups_0;
        let listed = groups_of(state.memberships, state.groups, auth_user.user_id);
        assert(read(group_rows(rows@)) =~= listed);
        assert forall|i: int| 0 <= i < rows@.len() implies (#[trigger] rows@[i]) is Some by {
            assert(group_rows(rows@)[i] is Some);
        }
        lemma_groups_of(state.memberships, state.groups, auth_user.user_id, group_id);
    }
    let query = match job.advance(reply) {
        Step::Run(query) => query,
        Step::Done(body) => {
            return Ok(body);
        },
        Step::Abort(error) => {
            return Err(error);
        },
    };
    let reply = ctx.execute(query);
    match job.advance(reply) {
        Step::Done(body) => Ok(body),
        Step::Abort(error) => Err(error),
        Step::Run(_) => Err(Error::Unauthorized),
    }
}

/// The unit of work in which a group is renamed.
#[derive(Clone, Copy, PartialEq, Eq, Debug, Structural)]
pub struct GroupUpdate {
    pub group_id: u128,
    pub finished: bool,
}

impl GroupUpdate {
    /// Why a request to rename a group is turned down before the store is
    /// asked: `parsed` is the id that the text of the request spells.
    pub open spec fn refusal(group_id: Seq<char>, parsed: Option<u128>, req: UpdateGroup) -> Option<
        Error,
    > {
        if group_id.len() == 0 {
            Some(Error::GroupIdEmpty)
        } else if req.name is None {
            Some(Error::NothingToUpdate)
        } else if parsed is None {
            Some(Error::InvalidGroupId)
        } else {
            None
        }
    }

    /// Whether the unit of work, given `reply`, goes on as `after` and asks
    /// for `step`.
    pub open spec fn steps(self, reply: Reply, after: GroupUpdate, step: Step<GroupBody<Group>>) -> bool {
        &&& after == (GroupUpdate { finished: true, ..self })
        &&& if self.finished {
            step matches Step::Abort(error) && error == Error::StorageUnavailable
        } else {
            match reply {
                Reply::Name(name) => step matches Step::Done(body) && body.group@ == (GroupView {
                    id: self.group_id,
                    name: name@,
                }),
                Reply::Violation(Constraint::GroupName) => step matches Step::Abort(error) && error
                    == Error::GroupNameTaken,
                Reply::NoRow => step matches Step::Abort(error) && error == Error::NotFound,
                _ => step matches Step::Abort(error) && error == Error::StorageUnavailable,
            }
        }
    }

    /// The unit of work in which the group that `group_id` spells is changed
    /// as `req` says, where `parsed` is the id that the text spells, and its
    /// first step: it ends at once where the text is empty, where `req`
    /// names nothing to change or where the text spells no id, and else asks
    /// the store to rename the group.
    pub fn begin(group_id: &str, parsed: Option<u128>, req: GroupBody<UpdateGroup>) -> (r: (
        GroupUpdate,
        Step<GroupBody<Group>>,
    ))
        ensures
            match GroupUpdate::refusal(group_id@, parsed, req.group) {
                Some(refusal) => {
                    &&& r.0.finished
                    &&& r.1 matches Step::Abort(error)
                    &&& error == refusal
                },
                None => {
                    &&& r.0 == (GroupUpdate { group_id: parsed->0, finished: false })
                    &&& r.1 matches Step::Run(Query::UpdateGroupName { group_id: asked, new_name })
                    &&& asked == parsed->0
                    &&& new_name matches Some(name)
                    &&& name@ == req.group.name->0@
                },
            },
    {
        if group_id.is_empty() {
            return (GroupUpdate { group_id: 0, finished: true }, Step::Abort(Error::GroupIdEmpty));
        }
        let name = match req.group.name {
            Some(name) => name,
            None => {
                return (
                    GroupUpdate { group_id: 0, finished: true },
                    Step::Abort(Error::NothingToUpdate),
                );
            },
        };
        match parsed {
            Some(id) => (
                GroupUpdate { group_id: id, finished: false },
                Step::Run(Query::UpdateGroupName { group_id: id, new_name: Some(name) }),
            ),
            None => (
                GroupUpdate { group_id: 0, finished: true },
                Step::Abort(Error::InvalidGroupId),
            ),
        }
    }

    /// The unit of work in which the group that `group_id` spells is changed
    /// as `req` says, and its first step.
    pub fn start(group_id: &str, req: GroupBody<UpdateGroup>) -> (r: (
        GroupUpdate,
        Step<GroupBody<Group>>,
    ))
        ensures
            match GroupUpdate::refusal(group_id@, uuid_from_str(group_id@), req.group) {
                Some(refusal) => {
                    &&& r.0.finished
                    &&& r.1 matches Step::Abort(error)
                    &&& error == refusal
                },
                None => {
                    &&& r.0 == (GroupUpdate {
                        group_id: uuid_from_str(group_id@)->0,
                        finished: false,
                    })
                    &&& r.1 matches Step::Run(Query::UpdateGroupName { group_id: asked, new_name })
                    &&& asked == uuid_from_str(group_id@)->0
                    &&& new_name matches Some(name)
                    &&& name@ == req.group.name->0@
                },
            },
    {
        let parsed = parse_uuid(group_id);
        GroupUpdate::begin(group_id, parsed, req)
    }

    /// Takes the store's answer to the last statement and says what to do
    /// next.
    pub fn advance(&mut self, reply: Reply) -> (step: Step<GroupBody<Group>>)
        ensures
            old(self).steps(reply, *final(self), step),
    {
        let finished = self.finished;
        self.finished = true;
        if finished {
            return Step::Abort(Error::StorageUnavailable);
        }
        match reply {
            Reply::Name(name) => Step::Done(GroupBody { group: Group { id: self.group_id, name } }),
            Reply::Violation(Constraint::GroupName) => Step::Abort(Error::GroupNameTaken),
            Reply::NoRow => Step::Abort(Error::NotFound),
            _ => Step::Abort(Error::StorageUnavailable),
        }
    }
}

impl State {
    /// Why the group `group_id` cannot be given the name `name` in this
    /// state, or `None` where it can.
    pub open spec fn rename_refusal(self, group_id: u128, name: Seq<char>) -> Option<Error> {
        if !self.has_group(group_id) {
            Some(Error::NotFound)
        } else if group_with(self.groups, group_id).name != name && self.name_taken(name) {
            Some(Error::GroupNameTaken)
        } else {
            None
        }
    }
}

/// Gives the group that `group_id` spells the name that `req` holds, and
/// hands the group back. Where it fails, the store is as it was.
pub fn update_group(ctx: &mut Store, group_id: &str, req: GroupBody<UpdateGroup>) -> (result: Result<
    GroupBody<Group>,
    Error,
>)
    requires
        old(ctx)@.valid(),
    ensures
        final(ctx)@.valid(),
        old(ctx)@.consistent() ==> final(ctx)@.consistent(),
        GroupUpdate::refusal(group_id@, uuid_from_str(group_id@), req.group) is None ==> final(ctx)@
            == old(ctx)@.after(
            Call::Rename { group_id: uuid_from_str(group_id@)->0, name: req.group.name->0@ },
        ),
        ({
            let parsed = uuid_from_str(group_id@);
            let id = parsed->0;
            let name = req.group.name->0@;
            let refusal = match GroupUpdate::refusal(group_id@, parsed, req.group) {
                Some(error) => Some(error),
                None => old(ctx)@.rename_refusal(id, name),
            };
            match result {
                Ok(body) => {
                    &&& refusal is None
                    &&& body.group@ == (GroupView { id, name })
                    &&& final(ctx)@ == old(ctx)@.with_name(id, name)
                },
                Err(error) => refusal == Some(error) && final(ctx)@ == old(ctx)@,
            }
        }),
{
    let (mut job, step) = GroupUpdate::start(group_id, req);
    match step {
        Step::Run(query) => {
            let reply = ctx.execute(query);
            proof {
                lemma_same_tables(old(ctx)@, ctx@);
            }
            match job.advance(reply) {
                Step::Done(body) => Ok(body),
                Step::Abort(error) => Err(error),
                Step::Run(_) => Err(Error::StorageUnavailable),
            }
        },
        Step::Done(body) => Ok(body),
        Step::Abort(error) => Err(error),
    }
}

/// Creates the group that `req` names and makes `auth_user` its first
/// member, through `handler`.
pub fn create_group<H: GroupsHandler>(
    handler: &mut H,
    auth_user: AuthUser,
    req: GroupBody<NewGroup>,
) -> (result: Result<GroupBody<Group>, Error>)
    requires
        old(handler).state().valid(),
    ensures
        final(handler).state().valid(),
        old(handler).state().consistent() ==> final(handler).state().consistent(),
        final(handler).state() == old(handler).state().after(
            Call::CreateGroup { name: req.group.name@, owner: auth_user.user_id },
        ),
        match result {
            Ok(body) => {
                &&& old(handler).state().creation_refusal(req.group.name@, auth_user.user_id) is None
                &&& body.group@ == (GroupView {
                    id: old(handler).state().next_id,
                    name: req.group.name@,
                })
                &&& final(handler).state() == old(handler).state().created_by(
                    req.group.name@,
                    auth_user.user_id,
                )
            },
            Err(error) => {
                &&& old(handler).state().creation_refusal(req.group.name@, auth_user.user_id)
                    == Some(error)
                &&& final(handler).state() == old(handler).state()
            },
        },
{
    match handler.create_group(req.group.name, auth_user) {
        Ok(group) => Ok(GroupBody { group }),
        Err(error) => Err(error),
    }
}

/// Makes `auth_user` a member of `group_id`, through `handler`.
pub fn add_user_to_group<H: GroupsHandler>(handler: &mut H, auth_user: AuthUser, group_id: u128) -> (result:
    Result<u128, Error>)
    requires
        old(handler).state().valid(),
    ensures
        final(handler).state().valid(),
        old(handler).state().consistent() ==> final(handler).state().consistent(),
        final(handler).state() == old(handler).state().after(
            Call::Join { group_id, user_id: auth_user.user_id },
        ),
        result is Ok ==> forall|member: u128|
            #![trigger old(handler).state().members(group_id).contains(member)]
            old(handler).state().members(group_id).contains(member) ==> {
                &&& final(handler).state().balance(group_id, auth_user.user_id, member) == 0
                &&& final(handler).state().balance(group_id, member, auth_user.user_id) == 0
            },
        match result {
            Ok(membership_id) => {
                &&& old(handler).state().join_refusal(group_id, auth_user.user_id) is None
                &&& membership_id == old(handler).state().next_id
                &&& final(handler).state() == old(handler).state().joined_by(
                    group_id,
                    auth_user.user_id,
                )
            },
            Err(error) => {
                &&& old(handler).state().join_refusal(group_id, auth_user.user_id) == Some(error)
                &&& final(handler).state() == old(handler).state()
            },
        },
{
    handler.add_user_to_group(&auth_user, &Group { id: group_id, name: String::new() })
}

} // verus!
