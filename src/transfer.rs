//! The funding protocol: check the sender can pay, snapshot the recipient, submit,
//! then confirm that the recipient's balance really grew. The ledger work is done by
//! the caller, who performs each requested action and reports what the ledger said.
use vstd::prelude::*;

verus! {

/// How a funding transfer ended.
#[derive(Clone, Copy, Debug, PartialEq, Eq, Structural)]
pub enum TransferOutcome {
    /// The ledger finalized the transfer and the recipient's balance grew.
    Completed,
    /// The sender's free balance is below the amount; nothing was submitted.
    InsufficientFunds,
    /// The ledger knows no account for the sender.
    SenderUnknown,
    /// The ledger rejected the transfer, or it was not finalized.
    SubmissionFailed,
    /// The transfer was finalized but the recipient's balance did not visibly grow.
    VerificationFailed,
    /// The ledger could not be reached, or a balance query before submission failed.
    ConnectionFailed,
}

/// What the ledger reported after the last requested action.
#[derive(Clone, Copy, Debug, PartialEq, Eq, Structural)]
pub enum LedgerEvent {
    /// A balance query was answered: the free balance, or `None` for an absent account.
    AccountBalance(Option<u128>),
    /// A balance query failed.
    QueryFailed,
    /// The transfer was finalized.
    Finalized,
    /// The transfer was rejected or the submission failed.
    SubmissionRejected,
}

/// What the caller must do next.
#[derive(Clone, Copy, Debug, PartialEq, Eq, Structural)]
pub enum TransferAction {
    QuerySenderBalance,
    QueryRecipientBalance,
    SubmitTransfer { amount: u128 },
    Finish(TransferOutcome),
}

/// Where a funding transfer stands.
#[derive(Clone, Copy, Debug, PartialEq, Eq, Structural)]
pub enum TransferStage {
    AwaitSender,
    AwaitRecipient,
    AwaitFinalization { recipient_before: u128 },
    AwaitVerification { recipient_before: u128 },
    Done(TransferOutcome),
}

/// The free balance of a queried account, counting an absent account as empty.
pub open spec fn balance_or_zero(b: Option<u128>) -> u128 {
    match b {
        Some(v) => v,
        None => 0,
    }
}

/// The action that a stage waits on.
pub open spec fn pending_action(stage: TransferStage, amount: u128) -> TransferAction {
    match stage {
        TransferStage::AwaitSender => TransferAction::QuerySenderBalance,
        TransferStage::AwaitRecipient => TransferAction::QueryRecipientBalance,
        TransferStage::AwaitFinalization { .. } => TransferAction::SubmitTransfer { amount },
        TransferStage::AwaitVerification { .. } => TransferAction::QueryRecipientBalance,
        TransferStage::Done(o) => TransferAction::Finish(o),
    }
}

/// Whether an event answers the action that a stage waits on.
pub open spec fn answers(stage: TransferStage, event: LedgerEvent) -> bool {
    match stage {
        TransferStage::AwaitFinalization { .. } => event is Finalized || event is SubmissionRejected,
        TransferStage::Done(_) => false,
        _ => event is AccountBalance || event is QueryFailed,
    }
}

/// A funding transfer of `amount` from the signer to a recipient.
pub struct TransferCoordinator {
    pub amount: u128,
    pub stage: TransferStage,
}

impl TransferCoordinator {
    /// Starts a transfer; the first action is to query the sender's balance.
    pub fn new(amount: u128) -> (r: (TransferCoordinator, TransferAction))
        ensures
            r.0.amount == amount,
            r.0.stage == TransferStage::AwaitSender,
            r.1 == TransferAction::QuerySenderBalance,
    {
        (TransferCoordinator { amount, stage: TransferStage::AwaitSender }, TransferAction::QuerySenderBalance)
    }

    /// Takes in what the ledger reported and returns the next action. An event that does
    /// not answer the pending action changes nothing, and that action is asked again.
    pub fn step(&mut self, event: LedgerEvent) -> (r: TransferAction)
        ensures
            final(self).amount == old(self).amount,
            r == pending_action(final(self).stage, final(self).amount),
            !answers(old(self).stage, event) ==> final(self).stage == old(self).stage,
            answers(old(self).stage, event) ==> match (old(self).stage, event) {
                (TransferStage::AwaitSender, LedgerEvent::AccountBalance(None)) => final(self).stage
                    == TransferStage::Done(TransferOutcome::SenderUnknown),
                (TransferStage::AwaitSender, LedgerEvent::AccountBalance(Some(b))) => final(self).stage
                    == (if b < old(self).amount {
                    TransferStage::Done(TransferOutcome::InsufficientFunds)
                } else {
                    TransferStage::AwaitRecipient
                }),
                (TransferStage::AwaitRecipient, LedgerEvent::AccountBalance(b)) => final(self).stage
                    == (TransferStage::AwaitFinalization { recipient_before: balance_or_zero(b) }),
                (TransferStage::AwaitFinalization { recipient_before }, LedgerEvent::Finalized) =>
                    final(self).stage == (TransferStage::AwaitVerification { recipient_before }),
                (TransferStage::AwaitFinalization { .. }, _) => final(self).stage
                    == TransferStage::Done(TransferOutcome::SubmissionFailed),
                (
                    TransferStage::AwaitVerification { recipient_before },
                    LedgerEvent::AccountBalance(b),
                ) => final(self).stage == TransferStage::Done(
                    (if balance_or_zero(b) > recipient_before {
                        TransferOutcome::Completed
                    } else {
                        TransferOutcome::VerificationFailed
                    }),
                ),
                (TransferStage::AwaitVerification { .. }, _) => final(self).stage
                    == TransferStage::Done(TransferOutcome::VerificationFailed),
                (_, _) => final(self).stage == TransferStage::Done(
                    TransferOutcome::ConnectionFailed,
                ),
            },
    {
        let next = match (self.stage, event) {
            (TransferStage::AwaitSender, LedgerEvent::AccountBalance(None)) => TransferStage::Done(
                TransferOutcome::SenderUnknown,
            ),
            (TransferStage::AwaitSender, LedgerEvent::AccountBalance(Some(b))) => {
                if b < self.amount {
                    TransferStage::Done(TransferOutcome::InsufficientFunds)
                } else {
                    TransferStage::AwaitRecipient
                }
            },
            (TransferStage::AwaitRecipient, LedgerEvent::AccountBalance(b)) => {
                let recipient_before = match b {
                    Some(v) => v,
                    None => 0,
                };
                TransferStage::AwaitFinalization { recipient_before }
            },
            (TransferStage::AwaitSender, LedgerEvent::QueryFailed)
            | (TransferStage::AwaitRecipient, LedgerEvent::QueryFailed) => TransferStage::Done(
                TransferOutcome::ConnectionFailed,
            ),
            (TransferStage::AwaitFinalization { recipient_before }, LedgerEvent::Finalized) => {
                TransferStage::AwaitVerification { recipient_before }
            },
            (TransferStage::AwaitFinalization { .. }, LedgerEvent::SubmissionRejected) => {
                TransferStage::Done(TransferOutcome::SubmissionFailed)
            },
            (
                TransferStage::AwaitVerification { recipient_before },
                LedgerEvent::AccountBalance(b),
            ) => {
                let after = match b {
                    Some(v) => v,
                    None => 0,
                };
                if after > recipient_before {
                    TransferStage::Done(TransferOutcome::Completed)
                } else {
                    TransferStage::Done(TransferOutcome::VerificationFailed)
                }
            },
            (TransferStage::AwaitVerification { .. }, LedgerEvent::QueryFailed) => {
                TransferStage::Done(TransferOutcome::VerificationFailed)
            },
            (stage, _) => stage,
        };
        self.stage = next;
        match next {
            TransferStage::AwaitSender => TransferAction::QuerySenderBalance,
            TransferStage::AwaitRecipient => TransferAction::QueryRecipientBalance,
            TransferStage::AwaitFinalization { .. } => TransferAction::SubmitTransfer {
                amount: self.amount,
            },
            TransferStage::AwaitVerification { .. } => TransferAction::QueryRecipientBalance,
            TransferStage::Done(o) => TransferAction::Finish(o),
        }
    }

    /// The outcome, once the transfer has ended.
    pub fn outcome(&self) -> (r: Option<TransferOutcome>)
        ensures
            r == match self.stage {
                TransferStage::Done(o) => Some(o),
                _ => None,
            },
    {
        match self.stage {
            TransferStage::Done(o) => Some(o),
            _ => None,
        }
    }
}

} // verus!
