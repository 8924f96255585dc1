use vstd::prelude::*;

verus! {

/// Why a request was turned down. A request that is turned down leaves the
/// ledger as it found it.
#[derive(Clone, Copy, PartialEq, Eq, Debug, Structural)]
pub enum Error {
    /// The user is not known to the identity store.
    UnknownUser,
    /// The group is not known to the identity store.
    UnknownGroup,
    /// The user already belongs to the group.
    DuplicateMembership,
    /// A transaction names a user who is not in the group.
    NotAMember,
    /// A balance row that every pair of members must have is not there: the
    /// ledger is damaged, and the request has tripped over it.
    LedgerRowMissing,
    /// A balance row that a new member needs is already there: the ledger is
    /// damaged, and the request has tripped over it.
    LedgerRowExists,
    /// The amount, or the balance it would lead to, does not fit in 64 bits.
    AmountOutOfRange,
    /// Another group already has the name.
    GroupNameTaken,
    /// The caller may not see what was asked for.
    Forbidden,
    /// The caller is not who the request needs.
    Unauthorized,
    /// No such row.
    NotFound,
    /// The group id of the request is empty or nil.
    GroupIdEmpty,
    /// The group id of the request is not the text of an id.
    InvalidGroupId,
    /// An update names nothing to change.
    NothingToUpdate,
    /// The metadata of a transaction cannot be written down for the store.
    InvalidMetadata,
    /// The store could not answer.
    StorageUnavailable,
    /// Something outside the ledger failed.
    Internal,
}

/// What a caller is told about a request that cannot be processed: the field
/// at fault and what is wrong with it.
#[derive(Debug)]
pub struct Detail {
    pub field: &'static str,
    pub problem: &'static str,
}

impl Error {
    /// Whether the error is a conflict with a row that is already there: the
    /// only kind of failure after which the same request is worth sending
    /// again once the conflict is gone.
    pub open spec fn spec_is_conflict(self) -> bool {
        self == Error::DuplicateMembership || self == Error::GroupNameTaken
    }

    #[verifier::when_used_as_spec(spec_is_conflict)]
    pub fn is_conflict(self) -> (r: bool)
        ensures
            r == self.spec_is_conflict(),
    {
        match self {
            Error::DuplicateMembership => true,
            Error::GroupNameTaken => true,
            _ => false,
        }
    }

    /// Whether the error shows that the ledger itself is damaged, and not
    /// that the request was at fault: such an error is to be logged as a
    /// trip of an integrity guard.
    pub open spec fn spec_is_integrity_trip(self) -> bool {
        self == Error::LedgerRowMissing || self == Error::LedgerRowExists
    }

    #[verifier::when_used_as_spec(spec_is_integrity_trip)]
    pub fn is_integrity_trip(self) -> (r: bool)
        ensures
            r == self.spec_is_integrity_trip(),
    {
        match self {
            Error::LedgerRowMissing => true,
            Error::LedgerRowExists => true,
            _ => false,
        }
    }

    /// The status with which a web service answers a request that failed
    /// with this error.
    pub open spec fn spec_status(self) -> u16 {
        match self {
            Error::Unauthorized => 401,
            Error::Forbidden => 403,
            Error::NotAMember => 403,
            Error::NotFound => 404,
            Error::DuplicateMembership => 409,
            Error::UnknownUser => 422,
            Error::UnknownGroup => 422,
            Error::GroupNameTaken => 422,
            Error::GroupIdEmpty => 422,
            Error::InvalidGroupId => 422,
            Error::NothingToUpdate => 422,
            Error::InvalidMetadata => 422,
            Error::AmountOutOfRange => 422,
            Error::StorageUnavailable => 503,
            Error::LedgerRowMissing => 500,
            Error::LedgerRowExists => 500,
            Error::Internal => 500,
        }
    }

    #[verifier::when_used_as_spec(spec_status)]
    pub fn status(self) -> (r: u16)
        ensures
            r == self.spec_status(),
    {
        match self {
            Error::Unauthorized => 401,
            Error::Forbidden => 403,
            Error::NotAMember => 403,
            Error::NotFound => 404,
            Error::DuplicateMembership => 409,
            Error::StorageUnavailable => 503,
            Error::LedgerRowMissing => 500,
            Error::LedgerRowExists => 500,
            Error::Internal => 500,
            _ => 422,
        }
    }

    /// What the caller is told where the request cannot be processed, and
    /// `None` for every other error.
    pub fn detail(self) -> (r: Option<Detail>)
        ensures
            r is Some <==> self.spec_status() == 422,
            r matches Some(detail) ==> (detail.field@, detail.problem@) == (match self {
                Error::UnknownUser => ("user"@, "user does not exist"@),
                Error::UnknownGroup => ("group"@, "group does not exist"@),
                Error::GroupNameTaken => ("group_name"@, "group name taken"@),
                Error::GroupIdEmpty => ("group_id"@, "group id empty"@),
                Error::InvalidGroupId => ("group_id"@, "invalid group id"@),
                Error::NothingToUpdate => ("all"@, "all fields empty"@),
                Error::InvalidMetadata => ("metadata"@, "invalid metadata"@),
                _ => ("amount"@, "amount out of range"@),
            }),
    {
        match self {
            Error::UnknownUser => Some(Detail { field: "user", problem: "user does not exist" }),
            Error::UnknownGroup => Some(Detail { field: "group", problem: "group does not exist" }),
            Error::GroupNameTaken => Some(
                Detail { field: "group_name", problem: "group name taken" },
            ),
            Error::GroupIdEmpty => Some(Detail { field: "group_id", problem: "group id empty" }),
            Error::InvalidGroupId => Some(
                Detail { field: "group_id", problem: "invalid group id" },
            ),
            Error::NothingToUpdate => Some(Detail { field: "all", problem: "all fields empty" }),
            Error::InvalidMetadata => Some(
                Detail { field: "metadata", problem: "invalid metadata" },
            ),
            Error::AmountOutOfRange => Some(
                Detail { field: "amount", problem: "amount out of range" },
            ),
            _ => None,
        }
    }
}

} // verus!
