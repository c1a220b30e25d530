use multisig_wallet::transfer::{
    LedgerEvent, TransferAction, TransferCoordinator, TransferOutcome,
};

#[test]
fn insufficient_funds_stops_before_submission() {
    let (mut c, first) = TransferCoordinator::new(150);
    assert_eq!(first, TransferAction::QuerySenderBalance);
    let next = c.step(LedgerEvent::AccountBalance(Some(100)));
    assert_eq!(next, TransferAction::Finish(TransferOutcome::InsufficientFunds));
    assert_eq!(c.outcome(), Some(TransferOutcome::InsufficientFunds));
}

#[test]
fn completed_transfer_is_verified() {
    let (mut c, _) = TransferCoordinator::new(100);
    assert_eq!(
        c.step(LedgerEvent::AccountBalance(Some(500))),
        TransferAction::QueryRecipientBalance
    );
    assert_eq!(
        c.step(LedgerEvent::AccountBalance(Some(0))),
        TransferAction::SubmitTransfer { amount: 100 }
    );
    assert_eq!(c.step(LedgerEvent::Finalized), TransferAction::QueryRecipientBalance);
    assert_eq!(
        c.step(LedgerEvent::AccountBalance(Some(100))),
        TransferAction::Finish(TransferOutcome::Completed)
    );
}

#[test]
fn finalized_without_effect_fails_verification() {
    let (mut c, _) = TransferCoordinator::new(100);
    c.step(LedgerEvent::AccountBalance(Some(500)));
    c.step(LedgerEvent::AccountBalance(Some(0)));
    c.step(LedgerEvent::Finalized);
    assert_eq!(
        c.step(LedgerEvent::AccountBalance(Some(0))),
        TransferAction::Finish(TransferOutcome::VerificationFailed)
    );
}

#[test]
fn absent_recipient_counts_as_empty() {
    let (mut c, _) = TransferCoordinator::new(10);
    c.step(LedgerEvent::AccountBalance(Some(10)));
    c.step(LedgerEvent::AccountBalance(None));
    c.step(LedgerEvent::Finalized);
    assert_eq!(
        c.step(LedgerEvent::AccountBalance(Some(10))),
        TransferAction::Finish(TransferOutcome::Completed)
    );
}

#[test]
fn unknown_sender() {
    let (mut c, _) = TransferCoordinator::new(10);
    assert_eq!(
        c.step(LedgerEvent::AccountBalance(None)),
        TransferAction::Finish(TransferOutcome::SenderUnknown)
    );
}

#[test]
fn rejected_submission() {
    let (mut c, _) = TransferCoordinator::new(10);
    c.step(LedgerEvent::AccountBalance(Some(10)));
    c.step(LedgerEvent::AccountBalance(Some(3)));
    assert_eq!(
        c.step(LedgerEvent::SubmissionRejected),
        TransferAction::Finish(TransferOutcome::SubmissionFailed)
    );
}

#[test]
fn failed_queries() {
    let (mut c, _) = TransferCoordinator::new(10);
    assert_eq!(
        c.step(LedgerEvent::QueryFailed),
        TransferAction::Finish(TransferOutcome::ConnectionFailed)
    );
    let (mut d, _) = TransferCoordinator::new(10);
    d.step(LedgerEvent::AccountBalance(Some(10)));
    d.step(LedgerEvent::AccountBalance(Some(3)));
    d.step(LedgerEvent::Finalized);
    assert_eq!(
        d.step(LedgerEvent::QueryFailed),
        TransferAction::Finish(TransferOutcome::VerificationFailed)
    );
}

#[test]
fn balance_drop_after_transfer_fails_verification() {
    let (mut c, _) = TransferCoordinator::new(10);
    c.step(LedgerEvent::AccountBalance(Some(u128::MAX)));
    c.step(LedgerEvent::AccountBalance(Some(50)));
    c.step(LedgerEvent::Finalized);
    assert_eq!(
        c.step(LedgerEvent::AccountBalance(Some(40))),
        TransferAction::Finish(TransferOutcome::VerificationFailed)
    );
}

#[test]
fn unexpected_event_repeats_the_pending_action() {
    let (mut c, _) = TransferCoordinator::new(10);
    assert_eq!(c.step(LedgerEvent::Finalized), TransferAction::QuerySenderBalance);
    c.step(LedgerEvent::AccountBalance(Some(10)));
    c.step(LedgerEvent::AccountBalance(Some(0)));
    assert_eq!(
        c.step(LedgerEvent::AccountBalance(Some(5))),
        TransferAction::SubmitTransfer { amount: 10 }
    );
    c.step(LedgerEvent::SubmissionRejected);
    assert_eq!(
        c.step(LedgerEvent::Finalized),
        TransferAction::Finish(TransferOutcome::SubmissionFailed)
    );
    assert_eq!(c.outcome(), Some(TransferOutcome::SubmissionFailed));
}

#[test]
fn exact_balance_is_enough() {
    let (mut c, _) = TransferCoordinator::new(100);
    assert_eq!(
        c.step(LedgerEvent::AccountBalance(Some(100))),
        TransferAction::QueryRecipientBalance
    );
    assert_eq!(c.outcome(), None);
}
