use fs_synchronizer::redis_store::RedisCommand;
use fs_synchronizer::transaction::{Transaction, TransactionAction, TransactionOutcome};

fn two_commands() -> Vec<RedisCommand> {
    vec![
        RedisCommand::Del(b"hash:/a".to_vec()),
        RedisCommand::Del(b"content:/a".to_vec()),
    ]
}

#[test]
fn all_accepted_commits() {
    let mut tx = Transaction::new(two_commands());
    let mut sent = Vec::new();
    loop {
        let action = tx.next_action();
        if let TransactionAction::Finished(outcome) = action {
            assert_eq!(outcome, TransactionOutcome::Committed);
            break;
        }
        sent.push(action);
        tx.on_reply(true);
    }
    assert_eq!(
        sent,
        vec![
            TransactionAction::Multi,
            TransactionAction::Command(0),
            TransactionAction::Command(1),
            TransactionAction::Exec,
        ]
    );
    assert_eq!(tx.outcome(), Some(TransactionOutcome::Committed));
}

#[test]
fn failed_command_discards_and_keeps_its_cause() {
    for discard_ok in [true, false] {
        let mut tx = Transaction::new(two_commands());
        tx.on_reply(true);
        assert_eq!(tx.next_action(), TransactionAction::Command(0));
        tx.on_reply(false);
        assert_eq!(tx.next_action(), TransactionAction::Discard);
        tx.on_reply(discard_ok);
        assert_eq!(tx.outcome(), Some(TransactionOutcome::CommandFailed(0)));
    }
}

#[test]
fn begin_and_commit_failures() {
    let mut tx = Transaction::new(two_commands());
    assert_eq!(tx.outcome(), None);
    tx.on_reply(false);
    assert_eq!(tx.outcome(), Some(TransactionOutcome::BeginFailed));

    let mut tx = Transaction::new(Vec::new());
    tx.on_reply(true);
    assert_eq!(tx.next_action(), TransactionAction::Exec);
    tx.on_reply(false);
    assert_eq!(tx.outcome(), Some(TransactionOutcome::CommitFailed));
}
