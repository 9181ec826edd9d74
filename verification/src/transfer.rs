//! The delegated-transfer protocol against the external ledger.
//!
//! The library never reaches the ledger itself: it emits order values
//! describing the call to make, and classifies the reply.  A transport
//! failure (service unreachable) is kept apart from the ledger's own
//! refusal, because after a transport failure the ledger's state is
//! unknown and a blind retry of a mutating call is unsafe, while a refusal
//! is a confirmed no-op.

use vstd::prelude::*;
use crate::identity::Identity;
use crate::errors::Error;

verus! {

/// What came back from one ledger call.
#[derive(Debug)]
pub enum LedgerReply {
    /// The ledger confirmed the operation at this block index.
    Confirmed(u64),
    /// The ledger refused the operation (insufficient funds or allowance).
    Rejected(String),
    /// The call itself failed; the ledger's state is unknown.
    Unreachable(u32, String),
}

/// An order to grant a spender an allowance of an exact amount.
#[derive(Debug)]
pub struct ApproveOrder {
    pub spender: Identity,
    pub amount: u64,
    pub token: Identity,
}

/// An order to pull funds from a holder to a destination.
#[derive(Debug)]
pub struct TransferFromOrder {
    pub from: Identity,
    pub to: Identity,
    pub amount: u64,
    pub token: Identity,
}

/// An order for a token resource's own ledger to transfer units out of the
/// service's account there to a destination.
#[derive(Debug)]
pub struct TokenTransferOrder {
    pub canister_id: Identity,
    pub to: Identity,
    pub amount: u64,
}

/// Turns a ledger reply into the operation's outcome, keeping the two
/// failure classes apart.
pub fn settle_ledger_reply(reply: &LedgerReply) -> (r: Result<u64, Error>)
    ensures
        match r {
            Ok(block) => reply matches LedgerReply::Confirmed(b) && block == b,
            Err(e) => match reply {
                LedgerReply::Confirmed(_) => false,
                LedgerReply::Rejected(m) => e matches Error::TransferFailed(mm) && mm@ == m@,
                LedgerReply::Unreachable(c, m) => e matches Error::ExternalCallFailed(cc, mm) && cc
                    == c && mm@ == m@,
            },
        },
{
    match reply {
        LedgerReply::Confirmed(b) => Ok(*b),
        LedgerReply::Rejected(m) => Err(Error::TransferFailed(m.clone())),
        LedgerReply::Unreachable(c, m) => Err(Error::ExternalCallFailed(*c, m.clone())),
    }
}

/// Where a delegated transfer stands.
#[derive(Clone, Copy, PartialEq, Eq, Structural, Debug)]
pub enum TransferPhase {
    /// Waiting for the holder's allowance grant.
    Approving,
    /// Allowance in place; waiting for the pull.
    Pulling,
    /// Funds moved; the block index is final.
    Done,
    /// A phase failed; the session is over.
    Failed,
}

/// One two-phase "allowance + pull" value transfer in flight.
#[derive(Debug)]
pub struct DelegatedTransfer {
    pub from: Identity,
    pub to: Identity,
    pub amount: u64,
    pub token: Identity,
    pub phase: TransferPhase,
}

impl DelegatedTransfer {
    /// Starts a full two-phase transfer: the holder must grant the
    /// allowance first.
    pub fn two_phase(from: Identity, to: Identity, amount: u64, token: Identity) -> (r:
        DelegatedTransfer)
        ensures
            r.from@ == from@ && r.to@ == to@ && r.amount == amount && r.token@ == token@,
            r.phase == TransferPhase::Approving,
    {
        DelegatedTransfer { from, to, amount, token, phase: TransferPhase::Approving }
    }

    /// Starts the simpler variant: the holder granted the allowance out of
    /// band, so the pull can go out at once.
    pub fn pre_approved(from: Identity, to: Identity, amount: u64, token: Identity) -> (r:
        DelegatedTransfer)
        ensures
            r.from@ == from@ && r.to@ == to@ && r.amount == amount && r.token@ == token@,
            r.phase == TransferPhase::Pulling,
    {
        DelegatedTransfer { from, to, amount, token, phase: TransferPhase::Pulling }
    }

    /// The allowance grant to perform, exactly for the session's amount.
    pub fn approve_order(&self, spender: &Identity) -> (r: ApproveOrder)
        requires
            self.phase == TransferPhase::Approving,
        ensures
            r.spender@ == spender@ && r.amount == self.amount && r.token@ == self.token@,
    {
        ApproveOrder { spender: spender.clone(), amount: self.amount, token: self.token.clone() }
    }

    /// Feeds back the allowance grant's outcome.
    pub fn on_approve(&mut self, reply: &LedgerReply) -> (r: Result<(), Error>)
        requires
            old(self).phase == TransferPhase::Approving,
        ensures
            final(self).from@ == old(self).from@ && final(self).to@ == old(self).to@ && final(self).amount == old(self).amount && final(self).token@ == old(self).token@,
            match r {
                Ok(u) => reply matches LedgerReply::Confirmed(_) && final(self).phase
                    == TransferPhase::Pulling,
                Err(e) => final(self).phase == TransferPhase::Failed && match reply {
                    LedgerReply::Confirmed(_) => false,
                    LedgerReply::Rejected(m) => e matches Error::TransferFailed(mm) && mm@ == m@,
                    LedgerReply::Unreachable(c, m) => e matches Error::ExternalCallFailed(cc, mm)
                        && cc == c && mm@ == m@,
                },
            },
    {
        match settle_ledger_reply(reply) {
            Ok(_) => {
                self.phase = TransferPhase::Pulling;
                Ok(())
            },
            Err(e) => {
                self.phase = TransferPhase::Failed;
                Err(e)
            },
        }
    }

    /// The pull to perform once the allowance is in place.
    pub fn pull_order(&self) -> (r: TransferFromOrder)
        requires
            self.phase == TransferPhase::Pulling,
        ensures
            r.from@ == self.from@ && r.to@ == self.to@ && r.amount == self.amount && r.token@
                == self.token@,
    {
        TransferFromOrder {
            from: self.from.clone(),
            to: self.to.clone(),
            amount: self.amount,
            token: self.token.clone(),
        }
    }

    /// Feeds back the pull's outcome; on confirmation the transfer is done
    /// and the block index is final.
    pub fn on_pull(&mut self, reply: &LedgerReply) -> (r: Result<u64, Error>)
        requires
            old(self).phase == TransferPhase::Pulling,
        ensures
            final(self).from@ == old(self).from@ && final(self).to@ == old(self).to@ && final(self).amount == old(self).amount && final(self).token@ == old(self).token@,
            match r {
                Ok(block) => reply matches LedgerReply::Confirmed(b) && block == b && final(self).phase == TransferPhase::Done,
                Err(e) => final(self).phase == TransferPhase::Failed && match reply {
                    LedgerReply::Confirmed(_) => false,
                    LedgerReply::Rejected(m) => e matches Error::TransferFailed(mm) && mm@ == m@,
                    LedgerReply::Unreachable(c, m) => e matches Error::ExternalCallFailed(cc, mm)
                        && cc == c && mm@ == m@,
                },
            },
    {
        match settle_ledger_reply(reply) {
            Ok(b) => {
                self.phase = TransferPhase::Done;
                Ok(b)
            },
            Err(e) => {
                self.phase = TransferPhase::Failed;
                Err(e)
            },
        }
    }
}

} // verus!
