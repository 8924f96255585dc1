use crate::dto::user::AuthUser;
use crate::error::Error;
use crate::laws::{law_posting_adds_up, lemma_post_keeps_consistent, Call};
use crate::logic::group::{all_read, is_listed, read, read_rows};
use crate::protocol::{Query, Reply, Step};
use crate::store::memory::Store;
use crate::store::model::{lemma_members_of, State};
use crate::store::statements::mirrored_rows;
use std::collections::HashMap;
use vstd::prelude::*;

verus! {

/// The envelope of every request and response about transactions.
#[derive(Debug)]
pub struct TxBody<T> {
    pub transaction: T,
}

/// The direction in which the caller declared a transaction: a credit raises
/// the payer's claim on the payee by the amount, a debit lowers it.
#[derive(Clone, Copy, PartialEq, Eq, Debug, Structural)]
pub enum TxType {
    Credit,
    Debit,
}

/// Whether the payee has acknowledged a transaction.
#[derive(Clone, Copy, PartialEq, Eq, Debug, Structural)]
pub enum AckStatus {
    NotAck,
    Ack,
}

impl TxType {
    /// The name of the variant.
    pub fn to_string(&self) -> (s: String)
        ensures
            s@ == (match *self {
                TxType::Credit => "Credit"@,
                TxType::Debit => "Debit"@,
            }),
    {
        match *self {
            TxType::Credit => "Credit".to_owned(),
            TxType::Debit => "Debit".to_owned(),
        }
    }
}

impl AckStatus {
    /// The name of the variant.
    pub fn to_string(&self) -> (s: String)
        ensures
            s@ == (match *self {
                AckStatus::NotAck => "NotAck"@,
                AckStatus::Ack => "Ack"@,
            }),
    {
        match *self {
            AckStatus::NotAck => "NotAck".to_owned(),
            AckStatus::Ack => "Ack".to_owned(),
        }
    }
}

/// What the caller may attach to a transaction. The ledger keeps it as it came.
pub type TxMetadata = HashMap<String, String>;

/// The request to post a transaction; the payer is the caller.
#[derive(Debug)]
pub struct NewTx {
    pub group_id: u128,
    pub payee_id: u128,
    pub amount: i64,
    pub tx_type: TxType,
    pub metadata: Option<TxMetadata>,
}

/// A transaction between two members of a group.
#[derive(Debug)]
pub struct Transaction {
    pub id: u128,
    pub group_id: u128,
    pub payer_id: u128,
    pub payee_id: u128,
    pub amount: i64,
    pub tx_type: TxType,
    pub ack_status: AckStatus,
    pub metadata: TxMetadata,
}

/// What a `Transaction` is in contracts.
pub struct TransactionView {
    pub id: u128,
    pub group_id: u128,
    pub payer_id: u128,
    pub payee_id: u128,
    pub amount: i64,
    pub tx_type: TxType,
    pub ack_status: AckStatus,
    pub metadata: Map<String, String>,
}

impl View for Transaction {
    type V = TransactionView;

    open spec fn view(&self) -> TransactionView {
        TransactionView {
            id: self.id,
            group_id: self.group_id,
            payer_id: self.payer_id,
            payee_id: self.payee_id,
            amount: self.amount,
            tx_type: self.tx_type,
            ack_status: self.ack_status,
            metadata: self.metadata@,
        }
    }
}

/// The amount by which a transaction raises the payer's claim on the payee.
pub open spec fn signed(amount: i64, tx_type: TxType) -> int {
    match tx_type {
        TxType::Credit => amount as int,
        TxType::Debit => -(amount as int),
    }
}

/// The signed amount of a declared transaction, or `None` where it does not
/// fit in 64 bits (a debit of the least amount).
pub fn signed_amount(amount: i64, tx_type: TxType) -> (r: Option<i64>)
    ensures
        match r {
            Some(v) => v as int == signed(amount, tx_type),
            None => signed(amount, tx_type) > i64::MAX,
        },
{
    match tx_type {
        TxType::Credit => Some(amount),
        TxType::Debit => {
            if amount == i64::MIN {
                None
            } else {
                Some(-amount)
            }
        },
    }
}

/// How far the posting of a transaction has come.
#[derive(Clone, Copy, PartialEq, Eq, Debug, Structural)]
pub enum PostStage {
    /// The members of the group are being listed.
    Checking,
    /// The transaction is being added; the payer's claim rises by `signed`.
    Recording { signed: i64 },
    /// The transaction has this id, and the two balances are being adjusted.
    Adjusting { id: u128, signed: i64 },
    /// Nothing is left to do.
    Finished,
}

/// The unit of work in which a transaction is posted: both users must be
/// members of the group; then the transaction is added, and the two mirrored
/// balances of the pair are adjusted by its signed amount.
#[derive(Debug)]
pub struct Posting {
    pub group_id: u128,
    pub payer_id: u128,
    pub payee_id: u128,
    pub amount: i64,
    pub tx_type: TxType,
    pub metadata: TxMetadata,
    pub stage: PostStage,
}

/// Whether `step` ends the unit of work with `error`.
pub open spec fn aborts<T>(step: Step<T>, error: Error) -> bool {
    step matches Step::Abort(given) && given == error
}

impl Posting {
    /// How many answers the unit of work may still ask for.
    pub open spec fn rank(self) -> nat {
        match self.stage {
            PostStage::Checking => 3,
            PostStage::Recording { .. } => 2,
            PostStage::Adjusting { .. } => 1,
            PostStage::Finished => 0,
        }
    }

    /// Whether `after` is this unit of work at another stage.
    pub open spec fn same_request(self, after: Posting) -> bool {
        &&& after.group_id == self.group_id
        &&& after.payer_id == self.payer_id
        &&& after.payee_id == self.payee_id
        &&& after.amount == self.amount
        &&& after.tx_type == self.tx_type
        &&& after.metadata@ == self.metadata@
    }

    /// The row that the unit of work adds to the transactions, before the
    /// store gives it an id: it holds the signed amount.
    pub open spec fn row(self, signed: i64) -> TransactionView {
        TransactionView {
            id: 0,
            group_id: self.group_id,
            payer_id: self.payer_id,
            payee_id: self.payee_id,
            amount: signed,
            tx_type: self.tx_type,
            ack_status: AckStatus::NotAck,
            metadata: self.metadata@,
        }
    }

    /// The transaction that the caller gets back: it holds the amount and the
    /// kind as the caller declared them.
    pub open spec fn receipt(self, id: u128) -> TransactionView {
        TransactionView {
            id,
            group_id: self.group_id,
            payer_id: self.payer_id,
            payee_id: self.payee_id,
            amount: self.amount,
            tx_type: self.tx_type,
            ack_status: AckStatus::NotAck,
            metadata: self.metadata@,
        }
    }

    /// Whether `query` is the statement that lists the members of the group.
    pub open spec fn opens_with(self, query: Query) -> bool {
        query matches Query::SelectMembers { group_id } && group_id == self.group_id
    }

    /// Whether `query` is the statement that adds the transaction.
    pub open spec fn records(self, query: Query, signed: i64) -> bool {
        &&& query matches Query::InsertTransaction {
            payer_id,
            payee_id,
            group_id,
            amount,
            tx_type,
            ack_status,
            metadata,
        }
        &&& (TransactionView {
            id: 0,
            group_id,
            payer_id,
            payee_id,
            amount,
            tx_type,
            ack_status,
            metadata: metadata@,
        }) == self.row(signed)
    }

    /// Whether `query` is the statement that adjusts the two balances.
    pub open spec fn adjusts(self, query: Query, signed: i64) -> bool {
        &&& query matches Query::AdjustBalances { group_id, payer_id, payee_id, amount }
        &&& group_id == self.group_id
        &&& payer_id == self.payer_id
        &&& payee_id == self.payee_id
        &&& amount == signed
    }

    /// Whether the unit of work, given `reply`, goes on as `after` and asks
    /// for `step`.
    pub open spec fn steps(self, reply: Reply, after: Posting, step: Step<TxBody<Transaction>>) -> bool {
        &&& self.same_request(after)
        &&& match self.stage {
            PostStage::Checking => match reply {
                Reply::Members(rows) => if !all_read(rows@) {
                    after.stage == PostStage::Finished && aborts(step, Error::StorageUnavailable)
                } else if !read(rows@).contains(self.payer_id) || !read(rows@).contains(
                    self.payee_id,
                ) {
                    after.stage == PostStage::Finished && aborts(step, Error::NotAMember)
                } else if signed(self.amount, self.tx_type) > i64::MAX {
                    after.stage == PostStage::Finished && aborts(step, Error::AmountOutOfRange)
                } else {
                    let signed = signed(self.amount, self.tx_type) as i64;
                    &&& after.stage == PostStage::Recording { signed }
                    &&& step matches Step::Run(query)
                    &&& self.records(query, signed)
                },
                _ => after.stage == PostStage::Finished && aborts(step, Error::StorageUnavailable),
            },
            PostStage::Recording { signed } => match reply {
                Reply::Id(id) => {
                    &&& after.stage == PostStage::Adjusting { id, signed }
                    &&& step matches Step::Run(query)
                    &&& self.adjusts(query, signed)
                },
                Reply::Unencodable => after.stage == PostStage::Finished && aborts(
                    step,
                    Error::InvalidMetadata,
                ),
                _ => after.stage == PostStage::Finished && aborts(step, Error::StorageUnavailable),
            },
            PostStage::Adjusting { id, signed } => {
                &&& after.stage == PostStage::Finished
                &&& match reply {
                    Reply::Affected(rows) => if rows == 2 {
                        step matches Step::Done(body) && body.transaction@ == self.receipt(id)
                    } else {
                        aborts(step, Error::LedgerRowMissing)
                    },
                    Reply::OutOfRange => aborts(step, Error::AmountOutOfRange),
                    _ => aborts(step, Error::StorageUnavailable),
                }
            },
            PostStage::Finished => after.stage == PostStage::Finished && aborts(
                step,
                Error::StorageUnavailable,
            ),
        }
    }

    /// Whether this is the unit of work in which `auth_user` posts `req`. A
    /// request without metadata is one with empty metadata.
    pub open spec fn asks(self, auth_user: AuthUser, req: TxBody<NewTx>) -> bool {
        &&& self.group_id == req.transaction.group_id
        &&& self.payer_id == auth_user.user_id
        &&& self.payee_id == req.transaction.payee_id
        &&& self.amount == req.transaction.amount
        &&& self.tx_type == req.transaction.tx_type
        &&& self.metadata@ == match req.transaction.metadata {
            Some(metadata) => metadata@,
            None => Map::<String, String>::empty(),
        }
    }

    /// The unit of work in which `auth_user` posts `req`, and its first step:
    /// the statement that lists the members of the group.
    pub fn start(auth_user: AuthUser, req: TxBody<NewTx>) -> (r: (
        Posting,
        Step<TxBody<Transaction>>,
    ))
        ensures
            r.0.asks(auth_user, req),
            r.0.stage == PostStage::Checking,
            r.1 matches Step::Run(query) && r.0.opens_with(query),
    {
        let new_tx = req.transaction;
        let metadata = match new_tx.metadata {
            Some(metadata) => metadata,
            None => HashMap::new(),
        };
        (
            Posting {
                group_id: new_tx.group_id,
                payer_id: auth_user.user_id,
                payee_id: new_tx.payee_id,
                amount: new_tx.amount,
                tx_type: new_tx.tx_type,
                metadata,
                stage: PostStage::Checking,
            },
            Step::Run(Query::SelectMembers { group_id: new_tx.group_id }),
        )
    }

    /// Takes the store's answer to the last statement and says what to do
    /// next.
    pub fn advance(&mut self, reply: Reply) -> (step: Step<TxBody<Transaction>>)
        ensures
            old(self).steps(reply, *final(self), step),
    {
        let stage = self.stage;
        self.stage = PostStage::Finished;
        match stage {
            PostStage::Checking => match reply {
                Reply::Members(rows) => match read_rows(&rows) {
                    Some(members) => {
                        if !is_listed(&members, self.payer_id) || !is_listed(
                            &members,
                            self.payee_id,
                        ) {
                            return Step::Abort(Error::NotAMember);
                        }
                        match signed_amount(self.amount, self.tx_type) {
                            Some(signed) => {
                                self.stage = PostStage::Recording { signed };
                                Step::Run(
                                    Query::InsertTransaction {
                                        payer_id: self.payer_id,
                                        payee_id: self.payee_id,
                                        group_id: self.group_id,
                                        amount: signed,
                                        tx_type: self.tx_type,
                                        ack_status: AckStatus::NotAck,
                                        metadata: self.metadata.clone(),
                                    },
                                )
                            },
                            None => Step::Abort(Error::AmountOutOfRange),
                        }
                    },
                    None => Step::Abort(Error::StorageUnavailable),
                },
                _ => Step::Abort(Error::StorageUnavailable),
            },
            PostStage::Recording { signed } => match reply {
                Reply::Id(id) => {
                    self.stage = PostStage::Adjusting { id, signed };
                    Step::Run(
                        Query::AdjustBalances {
                            group_id: self.group_id,
                            payer_id: self.payer_id,
                            payee_id: self.payee_id,
                            amount: signed,
                        },
                    )
                },
                Reply::Unencodable => Step::Abort(Error::InvalidMetadata),
                _ => Step::Abort(Error::StorageUnavailable),
            },
            PostStage::Adjusting { id, signed } => match reply {
                Reply::Affected(rows) => {
                    if rows == 2 {
                        Step::Done(
                            TxBody {
                                transaction: Transaction {
                                    id,
                                    group_id: self.group_id,
                                    payer_id: self.payer_id,
                                    payee_id: self.payee_id,
                                    amount: self.amount,
                                    tx_type: self.tx_type,
                                    ack_status: AckStatus::NotAck,
                                    metadata: self.metadata.clone(),
                                },
                            },
                        )
                    } else {
                        Step::Abort(Error::LedgerRowMissing)
                    }
                },
                Reply::OutOfRange => Step::Abort(Error::AmountOutOfRange),
                _ => Step::Abort(Error::StorageUnavailable),
            },
            PostStage::Finished => Step::Abort(Error::StorageUnavailable),
        }
    }
}

impl State {
    /// Why a transaction cannot be posted in this state, or `None` where it
    /// can.
    pub open spec fn post_refusal(
        self,
        group_id: u128,
        payer_id: u128,
        payee_id: u128,
        amount: i64,
        tx_type: TxType,
    ) -> Option<Error> {
        let signed = signed(amount, tx_type);
        let raised = self.balance(group_id, payer_id, payee_id) + signed;
        let lowered = self.balance(group_id, payee_id, payer_id) - signed;
        if !self.is_member(group_id, payer_id) || !self.is_member(group_id, payee_id) {
            Some(Error::NotAMember)
        } else if signed > i64::MAX {
            Some(Error::AmountOutOfRange)
        } else if self.next_id == u128::MAX {
            Some(Error::StorageUnavailable)
        } else if mirrored_rows(self.ledger, group_id, payer_id, payee_id) != 2 {
            Some(Error::LedgerRowMissing)
        } else if !(i64::MIN <= raised <= i64::MAX && i64::MIN <= lowered <= i64::MAX) {
            Some(Error::AmountOutOfRange)
        } else {
            None
        }
    }

    /// The state after a transaction was posted: `row` is added under the
    /// next id, the payer's balance against the payee is raised by the row's
    /// amount and the payee's against the payer lowered by as much.
    pub open spec fn posted(self, row: TransactionView) -> State {
        self.with_transaction(row).with_adjustment(
            row.group_id,
            row.payer_id,
            row.payee_id,
            row.amount as int,
        )
    }
}

impl Posting {
    /// Whether the unit of work, about to do `step`, is where it should be:
    /// `base` is the state in which it began and `now` the state of the store.
    pub open spec fn tracks(self, step: Step<TxBody<Transaction>>, base: State, now: State) -> bool {
        let due = signed(self.amount, self.tx_type);
        let members = base.is_member(self.group_id, self.payer_id) && base.is_member(
            self.group_id,
            self.payee_id,
        );
        let refusal = base.post_refusal(
            self.group_id,
            self.payer_id,
            self.payee_id,
            self.amount,
            self.tx_type,
        );
        match self.stage {
            PostStage::Checking => {
                &&& now == base
                &&& step matches Step::Run(query)
                &&& self.opens_with(query)
            },
            PostStage::Recording { signed } => {
                &&& members
                &&& due == signed
                &&& now == base
                &&& step matches Step::Run(query)
                &&& self.records(query, signed)
            },
            PostStage::Adjusting { id, signed } => {
                &&& members
                &&& due == signed
                &&& base.next_id != u128::MAX
                &&& id == base.next_id
                &&& now == base.with_transaction(self.row(signed))
                &&& step matches Step::Run(query)
                &&& self.adjusts(query, signed)
            },
            PostStage::Finished => match step {
                Step::Run(_) => false,
                Step::Done(body) => {
                    &&& refusal is None
                    &&& body.transaction@ == self.receipt(base.next_id)
                    &&& now == base.posted(self.row(due as i64))
                },
                Step::Abort(error) => {
                    &&& refusal == Some(error)
                    &&& (now == base || now == base.with_transaction(self.row(due as i64)))
                },
            },
        }
    }
}

/// A store that answers as the relations prescribe keeps a posting on its
/// way: whatever the stage, after one more statement and its answer the unit
/// of work is again where it should be.
pub proof fn lemma_posting_stays_on_track(
    job: Posting,
    step: Step<TxBody<Transaction>>,
    base: State,
    now: State,
    reply: Reply,
    then: State,
    next_job: Posting,
    next_step: Step<TxBody<Transaction>>,
)
    requires
        base.valid(),
        job.tracks(step, base, now),
        (step matches Step::Run(query) && now.answers(query, reply, then)),
        job.steps(reply, next_job, next_step),
    ensures
        next_job.tracks(next_step, base, then),
        next_job.rank() < job.rank(),
{
    if job.stage is Checking {
        lemma_members_of(base.memberships, job.group_id, job.payer_id);
        lemma_members_of(base.memberships, job.group_id, job.payee_id);
        let rows = reply->Members_0;
        assert(read(rows@) =~= base.members(job.group_id));
    }
}

/// Posts the transaction `req` of `auth_user` in one unit of work: where it
/// fails, the store is as it was. The transaction that comes back holds the
/// amount and the kind as they were declared; the row that is kept holds the
/// signed amount.
pub fn create_transaction(ctx: &mut Store, auth_user: AuthUser, req: TxBody<NewTx>) -> (result:
    Result<TxBody<Transaction>, Error>)
    requires
        old(ctx)@.valid(),
    ensures
        final(ctx)@.valid(),
        old(ctx)@.consistent() ==> final(ctx)@.consistent(),
        final(ctx)@ == old(ctx)@.after(
            Call::Post {
                group_id: req.transaction.group_id,
                payer_id: auth_user.user_id,
                payee_id: req.transaction.payee_id,
                amount: req.transaction.amount,
                tx_type: req.transaction.tx_type,
                metadata: match req.transaction.metadata {
                    Some(metadata) => metadata@,
                    None => Map::<String, String>::empty(),
                },
            },
        ),
        !old(ctx)@.is_member(req.transaction.group_id, auth_user.user_id) || !old(ctx)@.is_member(
            req.transaction.group_id,
            req.transaction.payee_id,
        ) ==> result matches Err(Error::NotAMember),
        result is Ok ==> {
            let new_tx = req.transaction;
            let payer_id = auth_user.user_id;
            let due = signed(new_tx.amount, new_tx.tx_type);
            &&& final(ctx)@.balance(new_tx.group_id, payer_id, new_tx.payee_id) == old(ctx)@.balance(
                new_tx.group_id,
                payer_id,
                new_tx.payee_id,
            ) + due
            &&& final(ctx)@.balance(new_tx.group_id, new_tx.payee_id, payer_id) == old(ctx)@.balance(
                new_tx.group_id,
                new_tx.payee_id,
                payer_id,
            ) - due
        },
        ({
            let new_tx = req.transaction;
            let refusal = old(ctx)@.post_refusal(
                new_tx.group_id,
                auth_user.user_id,
                new_tx.payee_id,
                new_tx.amount,
                new_tx.tx_type,
            );
            let metadata = match new_tx.metadata {
                Some(metadata) => metadata@,
                None => Map::<String, String>::empty(),
            };
            let receipt = TransactionView {
                id: old(ctx)@.next_id,
                group_id: new_tx.group_id,
                payer_id: auth_user.user_id,
                payee_id: new_tx.payee_id,
                amount: new_tx.amount,
                tx_type: new_tx.tx_type,
                ack_status: AckStatus::NotAck,
                metadata,
            };
            match result {
                Ok(body) => {
                    &&& refusal is None
                    &&& body.transaction@ == receipt
                    &&& final(ctx)@ == old(ctx)@.posted(
                        TransactionView {
                            amount: signed(new_tx.amount, new_tx.tx_type) as i64,
                            ..receipt
                        },
                    )
                },
                Err(error) => {
                    &&& refusal == Some(error)
                    &&& final(ctx)@ == old(ctx)@
                },
            }
        }),
{
    let ghost base = ctx@;
    let savepoint = ctx.savepoint();
    let (mut job, mut step) = Posting::start(auth_user, req);
    loop
        invariant
            base == old(ctx)@,
            base.valid(),
            ctx@.valid(),
            savepoint.marks(base),
            job.asks(auth_user, req),
            job.tracks(step, base, ctx@),
        decreases job.rank(), (step is Run) as int,
    {
        match step {
            Step::Run(query) => {
                let ghost now = ctx@;
                let ghost was = job;
                let ghost asked = step;
                let reply = ctx.execute(query);
                step = job.advance(reply);
                proof {
                    lemma_posting_stays_on_track(was, asked, base, now, reply, ctx@, job, step);
                }
            },
            Step::Done(body) => {
                proof {
                    let due = signed(job.amount, job.tx_type) as i64;
                    if base.consistent() {
                        lemma_post_keeps_consistent(base, job.row(due));
                    }
                    law_posting_adds_up(
                        base,
                        job.group_id,
                        job.payer_id,
                        job.payee_id,
                        job.amount,
                        job.tx_type,
                        job.row(due),
                    );
                }
                return Ok(body);
            },
            Step::Abort(error) => {
                ctx.rollback(&savepoint);
                proof {
                    assert(ctx@ =~= base);
                }
                return Err(error);
            },
        }
    }
}

} // verus!
