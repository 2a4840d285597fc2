//! The records and results of the hash-time-locked escrow.

use crate::bytes::clone_bytes;
use crate::env::Address;
use vstd::prelude::*;

verus! {

/// The escrow waits for the resolver to lock it.
pub const STATUS_PENDING: u32 = 0;

/// The resolver has locked the escrow; the secret can release it.
pub const STATUS_LOCKED: u32 = 1;

/// The secret was revealed in time. Terminal.
pub const STATUS_COMPLETED: u32 = 2;

/// The maker took the deposit back after the time lock ran out. Terminal.
pub const STATUS_REFUNDED: u32 = 3;

/// One deposit, released by a secret or refunded after its time lock.
#[derive(Debug, PartialEq, Eq)]
pub struct Escrow {
    /// The key under which the escrow is kept.
    pub id: Vec<u8>,
    /// Who deposited, and who alone may take the deposit back.
    pub maker: Address,
    /// How much was deposited.
    pub amount: i128,
    /// What was deposited.
    pub asset: Address,
    /// The digest that the secret must hash to.
    pub hash_lock: Vec<u8>,
    /// The last instant at which the secret releases the deposit.
    pub time_lock: u64,
    /// One of the four status constants.
    pub status: u32,
    /// The secret, once it was revealed.
    pub secret: Option<Vec<u8>>,
    /// The ledger time at which the escrow was created.
    pub created_at: u64,
}

/// What an [`Escrow`] holds, as mathematical values.
pub struct EscrowView {
    pub id: Seq<u8>,
    pub maker: Seq<u8>,
    pub amount: i128,
    pub asset: Seq<u8>,
    pub hash_lock: Seq<u8>,
    pub time_lock: u64,
    pub status: u32,
    pub secret: Option<Seq<u8>>,
    pub created_at: u64,
}

impl EscrowView {
    /// The status is one of the four, the amount is positive, and the secret
    /// is there exactly when the escrow is completed.
    pub open spec fn wf(self) -> bool {
        &&& self.status <= STATUS_REFUNDED
        &&& self.amount > 0
        &&& self.secret.is_some() <==> self.status == STATUS_COMPLETED
    }

    /// No operation changes this record any more.
    pub open spec fn terminal(self) -> bool {
        self.status == STATUS_COMPLETED || self.status == STATUS_REFUNDED
    }

    /// The same record in another status.
    pub open spec fn with_status(self, status: u32) -> EscrowView {
        EscrowView { status, ..self }
    }

    /// The same record, completed by `secret`.
    pub open spec fn completed_by(self, secret: Seq<u8>) -> EscrowView {
        EscrowView { status: STATUS_COMPLETED, secret: Some(secret), ..self }
    }
}

impl View for Escrow {
    type V = EscrowView;

    open spec fn view(&self) -> EscrowView {
        EscrowView {
            id: self.id@,
            maker: self.maker@,
            amount: self.amount,
            asset: self.asset@,
            hash_lock: self.hash_lock@,
            time_lock: self.time_lock,
            status: self.status,
            secret: match self.secret {
                Some(s) => Some(s@),
                None => None,
            },
            created_at: self.created_at,
        }
    }
}

impl Clone for Escrow {
    fn clone(&self) -> (copy: Escrow)
        ensures
            copy@ == self@,
    {
        Escrow {
            id: clone_bytes(&self.id),
            maker: self.maker.clone(),
            amount: self.amount,
            asset: self.asset.clone(),
            hash_lock: clone_bytes(&self.hash_lock),
            time_lock: self.time_lock,
            status: self.status,
            secret: match &self.secret {
                Some(s) => Some(clone_bytes(s)),
                None => None,
            },
            created_at: self.created_at,
        }
    }
}

/// The two deadlines that a maker sets. The escrow's time lock is the
/// withdrawal deadline.
#[derive(Clone, Copy, Debug, PartialEq, Eq)]
pub struct TimeLocks {
    pub withdrawal: u64,
    pub refund: u64,
}

/// Why an operation on an escrow failed.
#[derive(Clone, Copy, Debug, PartialEq, Eq, PartialOrd, Ord, Structural)]
pub enum Error {
    InvalidAmount,
    EscrowExists,
    EscrowNotFound,
    InvalidStatus,
    InvalidSecret,
    TimelockExpired,
    TimelockNotExpired,
}

impl Error {
    /// The number under which the ledger reports this error.
    pub open spec fn code_spec(self) -> u32 {
        match self {
            Error::InvalidAmount => 1,
            Error::EscrowExists => 2,
            Error::EscrowNotFound => 3,
            Error::InvalidStatus => 4,
            Error::InvalidSecret => 5,
            Error::TimelockExpired => 6,
            Error::TimelockNotExpired => 7,
        }
    }

    /// The number under which the ledger reports this error.
    pub fn code(self) -> (code: u32)
        ensures
            code == self.code_spec(),
    {
        match self {
            Error::InvalidAmount => 1,
            Error::EscrowExists => 2,
            Error::EscrowNotFound => 3,
            Error::InvalidStatus => 4,
            Error::InvalidSecret => 5,
            Error::TimelockExpired => 6,
            Error::TimelockNotExpired => 7,
        }
    }
}

/// Why a call was turned away. A call that lacks the authorization it needs
/// is turned away as a whole, which is no error of the escrow's own.
#[derive(Clone, Copy, Debug, PartialEq, Eq, Structural)]
pub enum Rejection {
    /// The identity that had to authorize the call did not.
    Unauthorized,
    /// The call was authorized and failed a rule of the escrow.
    Failed(Error),
}

} // verus!
